//! The modal dialogs that sit over the sidebar and the main pane.

use vstd::prelude::*;

use crate::git::BranchEntry;
use crate::idmap::WorktreeId;
use crate::text::{all_ascii, ascii_lowered, lowercase_of, spec_contains};
use crate::text_input::TextInput;

verus! {

/// Tail of the log file, scrollable.
#[derive(Debug)]
pub struct LogModal {
    pub lines: Vec<String>,
    pub scroll: usize,
    /// The log file, or `None` when there is none yet.
    pub source: Option<String>,
}

/// What deleting a worktree's branch would take.
#[derive(Debug, Clone, Copy, PartialEq, Eq, Structural)]
pub enum DeleteVariant {
    /// The branch is merged into its base: `git branch -d` will do.
    Merged,
    /// The branch has unmerged commits: only a force delete removes it.
    Unmerged,
}

/// The user's pick in the remove-worktree dialog.
#[derive(Debug, Clone, Copy, PartialEq, Eq, Structural)]
pub enum DeleteChoice {
    /// Remove the worktree and keep its branch.
    KeepBranch,
    /// Also delete the branch, refused when it is not merged.
    Delete,
    /// Also delete the branch unconditionally.
    ForceDelete,
}

/// A repository found by scanning a directory.
#[derive(Debug)]
pub struct DiscoveredRepo {
    pub path: String,
    pub name: String,
    pub already_configured: bool,
    pub selected: bool,
}

/// Repositories found under `scan_root`, waiting for the user to pick
/// which to add.
#[derive(Debug)]
pub struct DiscoveredReposModal {
    pub scan_root: String,
    pub scanning: bool,
    pub candidates: Vec<DiscoveredRepo>,
    pub cursor: usize,
    pub error: Option<String>,
}

impl DiscoveredReposModal {
    /// The dialog while the scan of `root` is still running.
    pub fn scanning(root: String) -> (m: Self)
        ensures
            m.scan_root == root,
            m.scanning,
            m.candidates@.len() == 0,
            m.cursor == 0,
            m.error.is_none(),
    {
        DiscoveredReposModal { scan_root: root, scanning: true, candidates: Vec::new(), cursor: 0, error: None }
    }
}

/// Path input of the add-repository dialog, with directory completions.
#[derive(Debug)]
pub struct AddRepoModal {
    pub input: TextInput,
    pub error: Option<String>,
    pub completions: Vec<String>,
    pub completion_cursor: Option<usize>,
}

impl Default for AddRepoModal {
    fn default() -> (m: Self)
        ensures
            m.input@ == (Seq::<char>::empty(), 0nat),
            m.error.is_none(),
            m.completions@.len() == 0,
            m.completion_cursor.is_none(),
    {
        AddRepoModal { input: TextInput::new(), error: None, completions: Vec::new(), completion_cursor: None }
    }
}

/// A branch is listed under filter `needle` (already lower-cased): the
/// needle is empty, or it occurs in the lower-cased display name.
pub open spec fn branch_matches(b: BranchEntry, needle: Seq<char>) -> bool {
    needle.len() == 0 || spec_contains(lowercase_of(b.spec_display()), needle)
}

/// Indices below `n` of the branches listed under `needle`, in order.
pub open spec fn matching_indices(bs: Seq<BranchEntry>, needle: Seq<char>, n: nat) -> Seq<usize>
    decreases n,
{
    if n == 0 {
        Seq::empty()
    } else {
        let prev = matching_indices(bs, needle, (n - 1) as nat);
        if branch_matches(bs[n - 1], needle) {
            prev.push((n - 1) as usize)
        } else {
            prev
        }
    }
}

/// The new-worktree dialog: one text input over a filtered branch list.
/// Row 0 is "create a new branch named like the input"; row `k > 0` is
/// the branch `branches[filter_matches[k - 1]]`.
#[derive(Debug)]
pub struct NewWorktreeModal {
    pub repo_idx: usize,
    pub input: TextInput,
    pub error: Option<String>,
    pub branches: Vec<BranchEntry>,
    pub filter_matches: Vec<usize>,
    pub cursor: usize,
}

pub open spec fn all_indices(n: nat) -> Seq<usize> {
    Seq::new(n, |i: int| i as usize)
}

impl NewWorktreeModal {
    /// The dialog for repository `repo_idx`: empty input, every branch
    /// listed, cursor on the create row.
    pub fn for_repo(repo_idx: usize, branches: Vec<BranchEntry>) -> (m: Self)
        ensures
            m.repo_idx == repo_idx,
            m.input@ == (Seq::<char>::empty(), 0nat),
            m.error.is_none(),
            m.branches@ == branches@,
            m.filter_matches@ == all_indices(branches@.len()),
            m.cursor == 0,
    {
        let n = branches.len();
        let mut filter_matches: Vec<usize> = Vec::new();
        let mut i: usize = 0;
        while i < n
            invariant
                i <= n,
                filter_matches@ == all_indices(i as nat),
            decreases n - i,
        {
            filter_matches.push(i);
            i += 1;
            assert(filter_matches@ =~= all_indices(i as nat));
        }
        NewWorktreeModal { repo_idx, input: TextInput::new(), error: None, branches, filter_matches, cursor: 0 }
    }

    /// Rows in the list: the create row plus the matching branches.
    pub fn total_rows(&self) -> (n: usize)
        requires
            self.filter_matches@.len() < usize::MAX,
        ensures
            n == 1 + self.filter_matches@.len(),
    {
        1 + self.filter_matches.len()
    }

    /// The branch under the cursor; `None` on the create row or when the
    /// cursor is past the list.
    pub fn selected_branch(&self) -> (r: Option<&BranchEntry>)
        ensures
            r.is_some() <==> (self.cursor > 0 && self.cursor - 1 < self.filter_matches@.len()
                && self.filter_matches@[self.cursor - 1] < self.branches@.len()),
            r.is_some() ==> *r.unwrap() == self.branches@[self.filter_matches@[self.cursor - 1] as int],
    {
        if self.cursor == 0 {
            return None;
        }
        if self.cursor - 1 >= self.filter_matches.len() {
            return None;
        }
        let idx = self.filter_matches[self.cursor - 1];
        if idx < self.branches.len() {
            Some(&self.branches[idx])
        } else {
            None
        }
    }

    /// List the branches whose display name contains the input,
    /// ignoring case, and put the cursor back on the create row.
    pub fn recompute_filter(&mut self)
        ensures
            final(self).filter_matches@ == matching_indices(
                old(self).branches@,
                lowercase_of(old(self).input@.0),
                old(self).branches@.len(),
            ),
            forall|k: int|
                0 <= k < old(self).branches@.len() && all_ascii(old(self).input@.0) && all_ascii(
                    (#[trigger] old(self).branches@[k]).spec_display(),
                ) ==> (branch_matches(old(self).branches@[k], lowercase_of(old(self).input@.0)) <==> (old(self).input@.0.len()
                    == 0 || spec_contains(ascii_lowered(old(self).branches@[k].spec_display()), ascii_lowered(old(self).input@.0)))),
            final(self).cursor == 0,
            final(self).repo_idx == old(self).repo_idx,
            final(self).input@ == old(self).input@,
            final(self).error == old(self).error,
            final(self).branches@ == old(self).branches@,
    {
        let value = self.input.value();
        let needle_s = crate::text::to_lowercase(value.as_str());
        let needle = crate::text::chars_of(needle_s.as_str());
        let ghost nd = lowercase_of(self.input@.0);
        let ghost input = self.input@.0;
        assert(all_ascii(input) ==> nd =~= ascii_lowered(input));
        let mut matches: Vec<usize> = Vec::new();
        let mut i: usize = 0;
        while i < self.branches.len()
            invariant
                i <= self.branches@.len(),
                needle@ == nd,
                nd == lowercase_of(input),
                all_ascii(input) ==> nd == ascii_lowered(input),
                matches@ == matching_indices(self.branches@, nd, i as nat),
                needle@.len() > 0 ==> forall|j: int|
                    0 <= j < i && all_ascii((#[trigger] self.branches@[j]).spec_display()) ==> lowercase_of(
                        self.branches@[j].spec_display(),
                    ) == ascii_lowered(self.branches@[j].spec_display()),
            decreases self.branches@.len() - i,
        {
            let keep = if needle.len() == 0 {
                true
            } else {
                let shown = self.branches[i].display();
                let low = crate::text::to_lowercase(shown.as_str());
                let hay = crate::text::chars_of(low.as_str());
                crate::text::contains_chars(&hay, &needle)
            };
            if keep {
                matches.push(i);
            }
            i += 1;
        }
        self.filter_matches = matches;
        self.cursor = 0;
    }
}

/// The dialog on screen, if any.
#[derive(Debug)]
pub enum Modal {
    Help,
    AddRepo(AddRepoModal),
    ConfirmRemoveRepo { repo_idx: usize },
    NewWorktree(NewWorktreeModal),
    /// Remove a worktree; the keys are absolute (keep / delete / force)
    /// so a stray Enter cannot destroy unmerged work.
    ConfirmRemoveWorktree {
        id: WorktreeId,
        variant: DeleteVariant,
        /// An open or draft pull request of the branch, warned about.
        pr_number: Option<u32>,
        /// Inline error of the last pick.
        error: Option<String>,
    },
    DiscoveredRepos(DiscoveredReposModal),
    ViewLog(LogModal),
}

} // verus!
