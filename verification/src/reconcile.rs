//! Keeping per-worktree state attached to its worktree when a repository's
//! worktree list changes: re-listing, creating and removing worktrees.

use vstd::prelude::*;

use crate::app::{AppState, SidebarCursor, frame};
use crate::idmap::{IndexRemap, KeyRemap, WorktreeId, remapped, spec_key_remap};
use crate::model::{PrStatus, Worktree, WorktreeStatus, same_worktrees};

verus! {

/// The last index below `n` whose worktree has path `p`.  A table from
/// path to index built by walking the list keeps this one.
pub open spec fn last_index_of_path(wts: Seq<Worktree>, p: Seq<char>, n: nat) -> Option<usize>
    decreases n,
{
    if n == 0 {
        None
    } else if wts[n - 1].path@ == p {
        Some((n - 1) as usize)
    } else {
        last_index_of_path(wts, p, (n - 1) as nat)
    }
}

/// Where old worktree `i` of a repository is found in the new list: at
/// the index of its path there, if its path is there.
pub open spec fn follow_path(old: Seq<Worktree>, new: Seq<Worktree>, i: usize) -> Option<usize> {
    if i < old.len() {
        last_index_of_path(new, old[i as int].path@, new.len())
    } else {
        None
    }
}

/// How keys move when repository `r` goes from list `old` to list `new`:
/// its worktrees follow their paths; other repositories' keys stay.
pub open spec fn path_remap(r: usize, old: Seq<Worktree>, new: Seq<Worktree>) -> spec_fn(WorktreeId) -> Option<WorktreeId> {
    |k: WorktreeId|
        if k.0 == r {
            match follow_path(old, new, k.1) {
                Some(j) => Some((r, j)),
                None => None,
            }
        } else {
            Some(k)
        }
}

/// How keys move when worktree `w` of repository `r` is removed: it is
/// dropped and the later worktrees of `r` shift down one.
pub open spec fn removal_remap(r: usize, w: usize) -> spec_fn(WorktreeId) -> Option<WorktreeId> {
    |k: WorktreeId|
        if k.0 != r || k.1 < w {
            Some(k)
        } else if k.1 == w {
            None
        } else {
            Some((r, (k.1 - 1) as usize))
        }
}

/// The cursor after repository `r`'s list went from `old` to `new`: a
/// cursor on one of its worktrees follows that worktree's path; when the
/// worktree is gone it falls back to the nearest index, or to the
/// repository row when the list is empty.  Other cursors stay.
pub open spec fn remapped_cursor(c: Option<SidebarCursor>, r: usize, old: Seq<Worktree>, new: Seq<Worktree>) -> Option<SidebarCursor> {
    match c {
        Some(SidebarCursor::Worktree { repo, worktree }) => if repo == r {
            match follow_path(old, new, worktree) {
                Some(nw) => Some(SidebarCursor::Worktree { repo, worktree: nw }),
                None => if new.len() == 0 {
                    Some(SidebarCursor::Repo(repo))
                } else {
                    Some(
                        SidebarCursor::Worktree {
                            repo,
                            worktree: if worktree < new.len() - 1 {
                                worktree
                            } else {
                                (new.len() - 1) as usize
                            },
                        },
                    )
                },
            }
        } else {
            c
        },
        _ => c,
    }
}

/// The per-worktree maps of `post` are those of `pre` moved by `f`.
pub open spec fn maps_remapped<T>(pre: AppState<T>, post: AppState<T>, f: spec_fn(WorktreeId) -> Option<WorktreeId>) -> bool {
    &&& remapped(pre.terminals@, f, post.terminals@)
    &&& remapped(pre.diffs@, f, post.diffs@)
    &&& remapped(pre.main_views@, f, post.main_views@)
}

/// What `remap_worktree_state(r, new)` does to `pre`.
pub open spec fn remap_post<T>(pre: AppState<T>, post: AppState<T>, r: usize, new: Seq<Worktree>) -> bool {
    let old = pre.repos@[r as int].worktrees@;
    &&& maps_remapped(pre, post, path_remap(r, old, new))
    &&& post.ui.cursor == remapped_cursor(pre.ui.cursor, r, old, new)
    &&& post.ui.expanded == pre.ui.expanded
    &&& post.ui.modal == pre.ui.modal
    &&& post.ui.focus == pre.ui.focus
    &&& post.ui.help_scroll == pre.ui.help_scroll
    &&& frame(pre, post, false, true, true, true, true)
}

/// No two worktrees of the list share a path.
pub open spec fn distinct_paths(wts: Seq<Worktree>) -> bool {
    forall|i: int, j: int| 0 <= i < j < wts.len() ==> #[trigger] wts[i].path@ != #[trigger] wts[j].path@
}

proof fn lemma_last_index(wts: Seq<Worktree>, p: Seq<char>, n: nat)
    requires
        n <= wts.len() <= usize::MAX,
    ensures
        last_index_of_path(wts, p, n) matches Some(j) ==> j < n && wts[j as int].path@ == p,
    decreases n,
{
    if n > 0 {
        lemma_last_index(wts, p, (n - 1) as nat);
    }
}

proof fn lemma_path_remap_injective(r: usize, old: Seq<Worktree>, new: Seq<Worktree>)
    requires
        distinct_paths(old),
        new.len() <= usize::MAX,
    ensures
        crate::idmap::remap_injective(path_remap(r, old, new)),
{
    let f = path_remap(r, old, new);
    assert forall|a: WorktreeId, b: WorktreeId| a != b && f(a).is_some() implies #[trigger] f(a) != #[trigger] f(b) by {
        if a.0 == r && b.0 == r {
            if f(b).is_some() && f(a) == f(b) {
                lemma_last_index(new, old[a.1 as int].path@, new.len());
                lemma_last_index(new, old[b.1 as int].path@, new.len());
                if a.1 < b.1 {
                    assert(old[a.1 as int].path@ != old[b.1 as int].path@);
                } else {
                    assert(old[b.1 as int].path@ != old[a.1 as int].path@);
                }
            }
        }
    }
}

/// State follows its worktree across a re-list: when the worktrees of
/// repository `r` have distinct paths, a value kept for worktree `i` of
/// `r` whose path is still listed is found under the new index of that
/// path, and a value kept for another repository's worktree stays under
/// its key.
pub proof fn law_state_follows_path<V>(
    pre: Map<WorktreeId, V>,
    post: Map<WorktreeId, V>,
    r: usize,
    old: Seq<Worktree>,
    new: Seq<Worktree>,
    k: WorktreeId,
)
    requires
        remapped(pre, path_remap(r, old, new), post),
        distinct_paths(old),
        new.len() <= usize::MAX,
        pre.contains_key(k),
    ensures
        k.0 == r ==> (follow_path(old, new, k.1) matches Some(j) ==> post.contains_key((r, j)) && post[(r, j)] == pre[k]),
        k.0 != r ==> post.contains_key(k) && post[k] == pre[k],
{
    let f = path_remap(r, old, new);
    lemma_path_remap_injective(r, old, new);
    assert(pre.contains_key(k));
    if f(k).is_some() {
        assert(post.contains_key(f(k).unwrap()));
    }
}

/// The first index at or after `j` of a worktree with path `p`.
pub open spec fn first_index_of_path(wts: Seq<Worktree>, p: Seq<char>, j: int) -> Option<usize>
    decreases wts.len() - j,
{
    if j < 0 || j >= wts.len() {
        None
    } else if wts[j].path@ == p {
        Some(j as usize)
    } else {
        first_index_of_path(wts, p, j + 1)
    }
}

/// `post`'s repositories are `pre`'s with repository `r`'s worktree list
/// replaced by `new`.
pub open spec fn list_replaced<T>(pre: AppState<T>, post: AppState<T>, r: usize, new: Seq<Worktree>) -> bool {
    &&& post.repos@.len() == pre.repos@.len()
    &&& forall|i: int| 0 <= i < pre.repos@.len() && i != r ==> #[trigger] post.repos@[i] == pre.repos@[i]
    &&& post.repos@[r as int].name == pre.repos@[r as int].name
    &&& post.repos@[r as int].root_path == pre.repos@[r as int].root_path
    &&& post.repos@[r as int].base_branch == pre.repos@[r as int].base_branch
    &&& post.repos@[r as int].worktrees@ == new
}

/// Index of the first worktree in `wts` with path `p`.
fn first_index_in(wts: &Vec<Worktree>, p: &str) -> (r: Option<usize>)
    ensures
        r == first_index_of_path(wts@, p@, 0),
{
    let mut j: usize = 0;
    while j < wts.len()
        invariant
            j <= wts@.len(),
            first_index_of_path(wts@, p@, 0) == first_index_of_path(wts@, p@, j as int),
        decreases wts@.len() - j,
    {
        if crate::text::str_eq(wts[j].path.as_str(), p) {
            return Some(j);
        }
        j += 1;
    }
    None
}

/// Removing worktree `w` of repository `r` drops its state and moves the
/// state of each later worktree of `r` down one index; every other key
/// keeps its state.
pub proof fn law_removal_shifts<V>(pre: Map<WorktreeId, V>, post: Map<WorktreeId, V>, r: usize, w: usize, k: WorktreeId)
    requires
        remapped(pre, removal_remap(r, w), post),
        pre.contains_key(k),
    ensures
        k == (r, w) ==> (forall|q: WorktreeId| #[trigger] post.contains_key(q) ==> exists|j: WorktreeId| pre.contains_key(j) && j != k && removal_remap(r, w)(j) == Some(q)),
        k.0 == r && k.1 > w ==> post.contains_key((r, (k.1 - 1) as usize)) && post[(r, (k.1 - 1) as usize)] == pre[k],
        (k.0 != r || k.1 < w) ==> post.contains_key(k) && post[k] == pre[k],
{
    let f = removal_remap(r, w);
    assert(crate::idmap::remap_injective(f)) by {
        assert forall|a: WorktreeId, b: WorktreeId| a != b && f(a).is_some() implies #[trigger] f(a) != #[trigger] f(b) by {}
    }
    if f(k).is_some() {
        assert(post.contains_key(f(k).unwrap()));
    }
    assert forall|q: WorktreeId| #[trigger] post.contains_key(q) && k == (r, w) implies exists|j: WorktreeId| pre.contains_key(j) && j != k && f(j) == Some(q) by {
        let j = choose|j: WorktreeId| #[trigger] pre.contains_key(j) && f(j) == Some(q);
        assert(j != k);
    }
}

/// Index of the last worktree in `new` with path `p`.
fn last_index_in(new: &Vec<Worktree>, p: &str) -> (r: Option<usize>)
    ensures
        r == last_index_of_path(new@, p@, new@.len()),
{
    let mut n: usize = new.len();
    while n > 0
        invariant
            n <= new@.len(),
            last_index_of_path(new@, p@, new@.len()) == last_index_of_path(new@, p@, n as nat),
        decreases n,
    {
        if crate::text::str_eq(new[n - 1].path.as_str(), p) {
            return Some(n - 1);
        }
        n -= 1;
    }
    None
}

impl<T> AppState<T> {
    /// Re-key per-worktree state of repository `repo_idx` for its new
    /// worktree list `new_list` (not installed here): state follows its
    /// worktree by path, and so does the cursor.
    pub fn remap_worktree_state(&mut self, repo_idx: usize, new_list: &Vec<Worktree>)
        requires
            repo_idx < old(self).repos@.len(),
        ensures
            remap_post(*old(self), *final(self), repo_idx, new_list@),
    {
        let r = repo_idx;
        let ghost old_list = self.repos@[r as int].worktrees@;
        let n_old = self.repos[r].worktrees.len();
        let mut table: Vec<Option<usize>> = Vec::new();
        let mut i: usize = 0;
        while i < n_old
            invariant
                i <= n_old,
                n_old == old_list.len(),
                old_list == self.repos@[r as int].worktrees@,
                r < self.repos@.len(),
                table@.len() == i,
                forall|k: int| 0 <= k < i ==> #[trigger] table@[k] == follow_path(old_list, new_list@, k as usize),
            decreases n_old - i,
        {
            let j = last_index_in(new_list, self.repos[r].worktrees[i].path.as_str());
            table.push(j);
            i += 1;
        }
        let m = KeyRemap::InRepo(r, IndexRemap::Table(table));
        let ghost f = path_remap(r, old_list, new_list@);
        proof {
            assert((|k: WorktreeId| spec_key_remap(m, k)) =~= f);
        }
        self.terminals.remap(&m);
        self.diffs.remap(&m);
        self.main_views.remap(&m);
        if let Some(SidebarCursor::Worktree { repo: cr, worktree: cw }) = self.ui.cursor {
            if cr == r {
                let followed = if cw < n_old {
                    last_index_in(new_list, self.repos[r].worktrees[cw].path.as_str())
                } else {
                    None
                };
                self.ui.cursor = match followed {
                    Some(nw) => Some(SidebarCursor::Worktree { repo: cr, worktree: nw }),
                    None => if new_list.len() == 0 {
                        Some(SidebarCursor::Repo(cr))
                    } else {
                        let last = new_list.len() - 1;
                        Some(SidebarCursor::Worktree { repo: cr, worktree: if cw < last { cw } else { last } })
                    },
                };
            }
        }
    }

    /// Install `new_list` as repository `r`'s worktrees.
    fn replace_list(&mut self, r: usize, new_list: Vec<Worktree>)
        requires
            r < old(self).repos@.len(),
        ensures
            list_replaced(*old(self), *final(self), r, new_list@),
            final(self).ui == old(self).ui,
            frame(*old(self), *final(self), true, false, false, false, false),
    {
        self.repos[r].worktrees = new_list;
    }

    /// Take a fresh listing of repository `repo_idx`'s worktrees: when it
    /// differs from the current one, state follows its worktrees by path
    /// and the list is replaced; otherwise nothing changes.
    pub fn reconcile_worktrees_with(&mut self, repo_idx: usize, new_list: Vec<Worktree>)
        ensures
            repo_idx >= old(self).repos@.len() || same_worktrees(new_list@, old(self).repos@[repo_idx as int].worktrees@)
                ==> *final(self) == *old(self),
            repo_idx < old(self).repos@.len() && !same_worktrees(new_list@, old(self).repos@[repo_idx as int].worktrees@)
                ==> exists|mid: AppState<T>| remap_post(*old(self), mid, repo_idx, new_list@) && #[trigger] list_replaced(mid, *final(self), repo_idx, new_list@)
                    && final(self).ui == mid.ui && frame(mid, *final(self), true, false, false, false, false),
    {
        if repo_idx >= self.repos.len() {
            return;
        }
        if crate::model::worktrees_equal(&new_list, &self.repos[repo_idx].worktrees) {
            return;
        }
        self.remap_worktree_state(repo_idx, &new_list);
        let ghost mid = *self;
        self.replace_list(repo_idx, new_list);
        assert(list_replaced(mid, *self, repo_idx, new_list@));
    }

    /// Worktree `id` was removed on disk and its repository re-listed as
    /// `new_list`: state of the removed worktree is dropped, later ones
    /// shift down, and the cursor lands on the nearest survivor (or the
    /// repository when none is left).
    pub fn apply_worktree_removed(&mut self, id: WorktreeId, new_list: Vec<Worktree>)
        requires
            id.0 < old(self).repos@.len(),
        ensures
            list_replaced(*old(self), *final(self), id.0, new_list@),
            maps_remapped(*old(self), *final(self), removal_remap(id.0, id.1)),
            final(self).ui.cursor == if new_list@.len() == 0 {
                Some(SidebarCursor::Repo(id.0))
            } else {
                Some(
                    SidebarCursor::Worktree {
                        repo: id.0,
                        worktree: if id.1 < new_list@.len() - 1 {
                            id.1
                        } else {
                            (new_list@.len() - 1) as usize
                        },
                    },
                )
            },
            final(self).ui.expanded == old(self).ui.expanded,
            final(self).ui.modal == old(self).ui.modal,
            final(self).ui.focus == old(self).ui.focus,
            final(self).ui.help_scroll == old(self).ui.help_scroll,
            frame(*old(self), *final(self), true, true, true, true, true),
    {
        let (r, w) = id;
        let n = new_list.len();
        self.replace_list(r, new_list);
        let m = KeyRemap::InRepo(r, IndexRemap::Removed(w));
        proof {
            assert((|k: WorktreeId| spec_key_remap(m, k)) =~= removal_remap(r, w));
        }
        self.terminals.remap(&m);
        self.diffs.remap(&m);
        self.main_views.remap(&m);
        if n == 0 {
            self.ui.cursor = Some(SidebarCursor::Repo(r));
        } else {
            let last = n - 1;
            self.ui.cursor = Some(SidebarCursor::Worktree { repo: r, worktree: if w < last { w } else { last } });
        }
    }

    /// A worktree was created at `new_path` and repository `repo_idx`
    /// re-listed as `new_list`: state follows its worktrees by path, the
    /// list is replaced, and the cursor lands on the new worktree (on the
    /// repository if the new path is not listed).
    pub fn finish_create_worktree(&mut self, repo_idx: usize, new_path: &str, new_list: Vec<Worktree>)
        requires
            repo_idx < old(self).repos@.len(),
        ensures
            exists|mid: AppState<T>| remap_post(*old(self), mid, repo_idx, new_list@) && #[trigger] list_replaced(mid, *final(self), repo_idx, new_list@)
                && final(self).ui.expanded == mid.ui.expanded && final(self).ui.modal == mid.ui.modal
                && final(self).ui.focus == mid.ui.focus && final(self).ui.help_scroll == mid.ui.help_scroll
                && frame(mid, *final(self), true, true, false, false, false),
            final(self).ui.cursor == match first_index_of_path(new_list@, new_path@, 0) {
                Some(j) => Some(SidebarCursor::Worktree { repo: repo_idx, worktree: j }),
                None => Some(SidebarCursor::Repo(repo_idx)),
            },
    {
        self.remap_worktree_state(repo_idx, &new_list);
        let found = first_index_in(&new_list, new_path);
        let ghost mid = *self;
        self.replace_list(repo_idx, new_list);
        self.ui.cursor = match found {
            Some(j) => Some(SidebarCursor::Worktree { repo: repo_idx, worktree: j }),
            None => Some(SidebarCursor::Repo(repo_idx)),
        };
        assert(list_replaced(mid, *self, repo_idx, new_list@));
    }

    /// Record the git status computed for worktree `id`, if it exists.
    pub fn set_worktree_status(&mut self, id: WorktreeId, status: WorktreeStatus)
        ensures
            id.0 < old(self).repos@.len() && id.1 < old(self).repos@[id.0 as int].worktrees@.len() ==> {
                let old_wt = old(self).repos@[id.0 as int].worktrees@[id.1 as int];
                list_replaced(*old(self), *final(self), id.0,
                    old(self).repos@[id.0 as int].worktrees@.update(id.1 as int, Worktree { status: Some(status), ..old_wt }))
            },
            !(id.0 < old(self).repos@.len() && id.1 < old(self).repos@[id.0 as int].worktrees@.len()) ==> *final(self) == *old(self),
            final(self).ui == old(self).ui,
            frame(*old(self), *final(self), true, false, false, false, false),
    {
        let (r, w) = id;
        if r < self.repos.len() && w < self.repos[r].worktrees.len() {
            self.repos[r].worktrees[w].status = Some(status);
        }
    }

    /// Record the pull request found for worktree `id`, if it exists.
    pub fn set_worktree_pr(&mut self, id: WorktreeId, pr: PrStatus)
        ensures
            id.0 < old(self).repos@.len() && id.1 < old(self).repos@[id.0 as int].worktrees@.len() ==> {
                let old_wt = old(self).repos@[id.0 as int].worktrees@[id.1 as int];
                list_replaced(*old(self), *final(self), id.0,
                    old(self).repos@[id.0 as int].worktrees@.update(id.1 as int, Worktree { pr: Some(pr), ..old_wt }))
            },
            !(id.0 < old(self).repos@.len() && id.1 < old(self).repos@[id.0 as int].worktrees@.len()) ==> *final(self) == *old(self),
            final(self).ui == old(self).ui,
            frame(*old(self), *final(self), true, false, false, false, false),
    {
        let (r, w) = id;
        if r < self.repos.len() && w < self.repos[r].worktrees.len() {
            self.repos[r].worktrees[w].pr = Some(pr);
        }
    }
}

} // verus!
