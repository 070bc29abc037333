//! Saving the sidebar between sessions and restoring it: the expand and
//! collapse choices, and the selected worktree by path.

use vstd::prelude::*;

use crate::app::{AppState, SidebarCursor, spec_active_id, frame};
use crate::model::Repo;
use crate::reconcile::first_index_of_path;
use crate::state::{ActiveWorktreeId, PersistedState, PersistedUi, CURRENT_SCHEMA_VERSION};

verus! {

/// The first worktree, in sidebar order from repository `i` on, whose
/// path is `p`.
pub open spec fn find_path_from(repos: Seq<Repo>, p: Seq<char>, i: int) -> Option<(usize, usize)>
    decreases repos.len() - i,
{
    if i < 0 || i >= repos.len() {
        None
    } else {
        match first_index_of_path(repos[i].worktrees@, p, 0) {
            Some(j) => Some((i as usize, j)),
            None => find_path_from(repos, p, i + 1),
        }
    }
}

/// The path of the worktree under the cursor, if the cursor is on one.
pub open spec fn active_path<T>(s: AppState<T>) -> Option<Seq<char>> {
    match spec_active_id(s) {
        Some(id) => Some(s.repos@[id.0 as int].worktrees@[id.1 as int].path@),
        None => None,
    }
}

pub open spec fn persisted_active_path(p: PersistedState) -> Option<Seq<char>> {
    match p.ui.active_worktree {
        Some(a) => Some(a.path@),
        None => None,
    }
}

/// What `apply_persisted` does: the flags are the saved ones, and the
/// cursor moves to the first worktree with the saved path, if any.
pub open spec fn apply_persisted_post<T>(pre: AppState<T>, p: PersistedState, post: AppState<T>) -> bool {
    &&& post.ui.expanded@ == p.ui.expanded@
    &&& post.ui.cursor == match persisted_active_path(p) {
        Some(path) => match find_path_from(pre.repos@, path, 0) {
            Some((r, w)) => Some(SidebarCursor::Worktree { repo: r, worktree: w }),
            None => pre.ui.cursor,
        },
        None => pre.ui.cursor,
    }
    &&& post.ui.modal == pre.ui.modal
    &&& post.ui.focus == pre.ui.focus
    &&& post.ui.help_scroll == pre.ui.help_scroll
    &&& frame(pre, post, false, true, false, false, false)
}

/// Repository `i` and worktree `j` as `(usize, usize)`.
fn first_in_repos(repos: &Vec<Repo>, p: &str) -> (r: Option<(usize, usize)>)
    ensures
        r == find_path_from(repos@, p@, 0),
{
    let mut i: usize = 0;
    while i < repos.len()
        invariant
            i <= repos@.len(),
            find_path_from(repos@, p@, 0) == find_path_from(repos@, p@, i as int),
        decreases repos@.len() - i,
    {
        let mut j: usize = 0;
        let wts = &repos[i].worktrees;
        while j < wts.len()
            invariant
                i < repos@.len(),
                find_path_from(repos@, p@, 0) == find_path_from(repos@, p@, i as int),
                j <= wts@.len(),
                wts@ == repos@[i as int].worktrees@,
                first_index_of_path(wts@, p@, 0) == first_index_of_path(wts@, p@, j as int),
            decreases wts@.len() - j,
        {
            if crate::text::str_eq(wts[j].path.as_str(), p) {
                return Some((i, j));
            }
            j += 1;
        }
        i += 1;
    }
    None
}

impl<T> AppState<T> {
    /// What to save of the UI: the expand/collapse flags and the path of
    /// the worktree under the cursor.
    pub fn to_persisted(&self) -> (p: PersistedState)
        ensures
            p.schema_version == CURRENT_SCHEMA_VERSION,
            p.ui.expanded@ == self.ui.expanded@,
            persisted_active_path(p) == active_path(*self),
    {
        let active_worktree = match self.active_worktree_id() {
            Some((r, w)) => Some(ActiveWorktreeId { path: self.repos[r].worktrees[w].path.clone() }),
            None => None,
        };
        PersistedState {
            schema_version: crate::state::current_schema_version(),
            ui: PersistedUi { active_worktree, expanded: self.ui.expanded.copy() },
        }
    }

    /// Restore saved UI state: the flags, and the cursor on the saved
    /// worktree when a worktree with its path is listed today.
    pub fn apply_persisted(&mut self, persisted: PersistedState)
        ensures
            apply_persisted_post(*old(self), persisted, *final(self)),
    {
        let PersistedState { schema_version: _, ui: PersistedUi { active_worktree, expanded } } = persisted;
        self.ui.expanded = expanded;
        if let Some(active) = active_worktree {
            if let Some((r, w)) = first_in_repos(&self.repos, active.path.as_str()) {
                self.ui.cursor = Some(SidebarCursor::Worktree { repo: r, worktree: w });
            }
        }
    }
}

/// The worktree paths of `a` and `b`, repository by repository, are the
/// same.
pub open spec fn same_paths(a: Seq<Repo>, b: Seq<Repo>) -> bool {
    &&& a.len() == b.len()
    &&& forall|i: int| 0 <= i < a.len() ==> (#[trigger] a[i]).worktrees@.len() == b[i].worktrees@.len()
    &&& forall|i: int, j: int| 0 <= i < a.len() && 0 <= j < a[i].worktrees@.len() ==> (#[trigger] a[i].worktrees@[j]).path@ == b[i].worktrees@[j].path@
}

/// Worktree `(r, w)` is the first, in sidebar order, with its path.
pub open spec fn first_with_its_path(repos: Seq<Repo>, r: int, w: int) -> bool {
    let p = repos[r].worktrees@[w].path@;
    &&& forall|i: int, j: int| 0 <= i < r && 0 <= j < repos[i].worktrees@.len() ==> (#[trigger] repos[i].worktrees@[j]).path@ != p
    &&& forall|j: int| 0 <= j < w ==> (#[trigger] repos[r].worktrees@[j]).path@ != p
}

proof fn lemma_first_index(wts: Seq<crate::model::Worktree>, p: Seq<char>, from: int, w: int)
    requires
        0 <= from <= w < wts.len() <= usize::MAX,
        wts[w].path@ == p,
        forall|j: int| from <= j < w ==> (#[trigger] wts[j]).path@ != p,
    ensures
        first_index_of_path(wts, p, from) == Some(w as usize),
    decreases w - from,
{
    if from < w {
        lemma_first_index(wts, p, from + 1, w);
    }
}

proof fn lemma_no_index(wts: Seq<crate::model::Worktree>, p: Seq<char>, from: int)
    requires
        0 <= from <= wts.len(),
        forall|j: int| from <= j < wts.len() ==> (#[trigger] wts[j]).path@ != p,
    ensures
        first_index_of_path(wts, p, from) is None,
    decreases wts.len() - from,
{
    if from < wts.len() {
        lemma_no_index(wts, p, from + 1);
    }
}

proof fn lemma_find_path(repos: Seq<Repo>, p: Seq<char>, from: int, r: int, w: int)
    requires
        0 <= from <= r < repos.len() <= usize::MAX,
        0 <= w < repos[r].worktrees@.len() <= usize::MAX,
        repos[r].worktrees@[w].path@ == p,
        forall|i: int, j: int| from <= i < r && 0 <= j < repos[i].worktrees@.len() ==> (#[trigger] repos[i].worktrees@[j]).path@ != p,
        forall|j: int| 0 <= j < w ==> (#[trigger] repos[r].worktrees@[j]).path@ != p,
    ensures
        find_path_from(repos, p, from) == Some((r as usize, w as usize)),
    decreases r - from,
{
    if from < r {
        assert forall|j: int| 0 <= j < repos[from].worktrees@.len() implies (#[trigger] repos[from].worktrees@[j]).path@ != p by {}
        lemma_no_index(repos[from].worktrees@, p, 0);
        lemma_find_path(repos, p, from + 1, r, w);
    } else {
        lemma_first_index(repos[r].worktrees@, p, 0, w);
    }
}

/// Saving and restoring the UI brings it back: restored into a session
/// whose repositories list the same worktree paths, the expand/collapse
/// flags are the saved ones and the cursor is back on the worktree it was
/// on, provided that worktree is the first one listed with its path.
pub proof fn law_persisted_round_trip<T>(s: AppState<T>, p: PersistedState, fresh: AppState<T>, restored: AppState<T>)
    requires
        p.ui.expanded@ == s.ui.expanded@,
        persisted_active_path(p) == active_path(s),
        apply_persisted_post(fresh, p, restored),
        same_paths(s.repos@, fresh.repos@),
        s.repos@.len() <= usize::MAX,
        forall|i: int| 0 <= i < s.repos@.len() ==> (#[trigger] fresh.repos@[i]).worktrees@.len() <= usize::MAX,
        spec_active_id(s) matches Some((r, w)) ==> first_with_its_path(s.repos@, r as int, w as int),
    ensures
        restored.ui.expanded@ == s.ui.expanded@,
        spec_active_id(s) matches Some((r, w)) ==> restored.ui.cursor == Some(SidebarCursor::Worktree { repo: r, worktree: w }),
{
    if let Some((r, w)) = spec_active_id(s) {
        let path = s.repos@[r as int].worktrees@[w as int].path@;
        let fr = fresh.repos@;
        assert(fr[r as int].worktrees@[w as int].path@ == path);
        assert forall|i: int, j: int| 0 <= i < r && 0 <= j < fr[i].worktrees@.len() implies (#[trigger] fr[i].worktrees@[j]).path@ != path by {
            assert(s.repos@[i].worktrees@[j].path@ == fr[i].worktrees@[j].path@);
        }
        assert forall|j: int| 0 <= j < w implies (#[trigger] fr[r as int].worktrees@[j]).path@ != path by {
            assert(s.repos@[r as int].worktrees@[j].path@ == fr[r as int].worktrees@[j].path@);
        }
        lemma_find_path(fr, path, 0, r as int, w as int);
    }
}

} // verus!
