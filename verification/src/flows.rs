//! The dialogs that end in git work: creating and removing worktrees,
//! adding and removing repositories.  Each decides what is to be done and
//! hands it to the caller as an [`Effect`]; the caller reports back
//! through `finish_*`, `commit_*` and `reopen_*`.

use vstd::prelude::*;

use crate::app::{AppState, Effect, SidebarCursor, frame};
use crate::commands::{GitCommand, delete_branch, force_delete_branch, remove_worktree};
use crate::config::Config;
use crate::dialogs::only_modal_changed;
use crate::git::BranchEntry;
use crate::idmap::WorktreeId;
use crate::modals::{AddRepoModal, DeleteChoice, DeleteVariant, DiscoveredReposModal, Modal, NewWorktreeModal};
use crate::model::{HeadRef, PrState, Repo, Worktree};
use crate::text::{spec_trim, string_of, trim};

verus! {

/// Where the branch of a new worktree comes from.
#[derive(Debug)]
pub enum BranchSource {
    /// A new branch of this name, off the repository's base branch.
    NewBranch(String),
    /// An existing local branch.
    Existing(String),
    /// A branch of a remote with no local branch of that name: a local
    /// tracking branch is made for it.
    Remote { remote: String, name: String },
}

/// Everything the caller needs to create a worktree.
#[derive(Debug)]
pub struct CreateRequest {
    pub repo_idx: usize,
    pub repo_root: String,
    pub repo_name: String,
    pub base_branch: String,
    /// The configured worktree root (repository override first), not yet
    /// expanded.
    pub worktree_root: Option<String>,
    pub source: BranchSource,
}

/// A branch to delete after its worktree is removed.
#[derive(Debug)]
pub struct BranchDeletion {
    pub branch: String,
    pub force: bool,
    pub command: GitCommand,
}

pub open spec fn msg_repo_not_found() -> Seq<char> {
    seq!['r', 'e', 'p', 'o', ' ', 'n', 'o', 't', ' ', 'f', 'o', 'u', 'n', 'd']
}

pub open spec fn msg_empty_branch() -> Seq<char> {
    seq!['b', 'r', 'a', 'n', 'c', 'h', ' ', 'n', 'a', 'm', 'e', ' ', 'c', 'a', 'n', 'n', 'o', 't', ' ', 'b', 'e', ' ', 'e', 'm', 'p', 't', 'y']
}

pub open spec fn msg_empty_path() -> Seq<char> {
    seq!['p', 'a', 't', 'h', ' ', 'c', 'a', 'n', 'n', 'o', 't', ' ', 'b', 'e', ' ', 'e', 'm', 'p', 't', 'y']
}

pub open spec fn msg_unmerged() -> Seq<char> {
    seq![
        'b', 'r', 'a', 'n', 'c', 'h', ' ', 'h', 'a', 's', ' ', 'u', 'n', 'm', 'e', 'r', 'g', 'e', 'd', ' ', 'c', 'o', 'm', 'm',
        'i', 't', 's', ';', ' ', 'p', 'r', 'e', 's', 's', ' ', 'D', ' ', 't', 'o', ' ', 'f', 'o', 'r', 'c', 'e', '-', 'd', 'e',
        'l', 'e', 't', 'e',
    ]
}

pub open spec fn msg_refuse_primary() -> Seq<char> {
    seq![
        'f', 'a', 'i', 'l', 'e', 'd', ' ', 't', 'o', ' ', 'r', 'e', 'm', 'o', 'v', 'e', ' ', 'w', 'o', 'r', 'k', 't', 'r', 'e',
        'e', ':', ' ', 'r', 'e', 'f', 'u', 's', 'i', 'n', 'g', ' ', 't', 'o', ' ', 'r', 'e', 'm', 'o', 'v', 'e', ' ', 'p', 'r',
        'i', 'm', 'a', 'r', 'y', ' ', 'c', 'h', 'e', 'c', 'k', 'o', 'u', 't',
    ]
}

/// The repository a cursor row belongs to.
pub open spec fn cursor_repo(c: Option<SidebarCursor>) -> Option<usize> {
    match c {
        Some(SidebarCursor::Repo(i)) => Some(i),
        Some(SidebarCursor::Worktree { repo, .. }) => Some(repo),
        None => None,
    }
}

/// An open or draft pull request's number.
pub open spec fn open_pr_number(w: Worktree) -> Option<u32> {
    match w.pr {
        Some(p) => if p.state == PrState::Open || p.state == PrState::Draft {
            Some(p.number)
        } else {
            None
        },
        None => None,
    }
}

/// The worktree root configured for repository `idx`: its own override,
/// else the general one.
pub open spec fn spec_worktree_root(c: Config, idx: usize) -> Option<String> {
    if idx < c.repos@.len() && c.repos@[idx as int].worktree_root.is_some() {
        c.repos@[idx as int].worktree_root
    } else {
        c.general.worktree_root
    }
}

/// What creating from dialog `m` asks for.
pub open spec fn request_ok<T>(s: AppState<T>, m: NewWorktreeModal, req: CreateRequest) -> bool {
    let repo = s.repos@[m.repo_idx as int];
    &&& req.repo_idx == m.repo_idx
    &&& req.repo_root == repo.root_path
    &&& req.repo_name == repo.name
    &&& req.base_branch == repo.base_branch
    &&& req.worktree_root == spec_worktree_root(s.config, m.repo_idx)
    &&& match selected(m) {
        None => req.source matches BranchSource::NewBranch(b) && b@ == spec_trim(m.input@.0),
        Some(e) => match e.remote {
            Some(r) => req.source matches BranchSource::Remote { remote, name } && remote == r && name == e.name,
            None => req.source matches BranchSource::Existing(b) && b == e.name,
        },
    }
}

/// The branch row under the dialog's cursor.
pub open spec fn selected(m: NewWorktreeModal) -> Option<BranchEntry> {
    if m.cursor > 0 && m.cursor - 1 < m.filter_matches@.len() && m.filter_matches@[m.cursor - 1] < m.branches@.len() {
        Some(m.branches@[m.filter_matches@[m.cursor - 1] as int])
    } else {
        None
    }
}

fn clone_opt(s: &Option<String>) -> (r: Option<String>)
    ensures
        r == *s,
{
    crate::config::copy_opt_string(s)
}

pub open spec fn open_new_worktree_eff<T>(s: AppState<T>, eff: Option<Effect>) -> bool {
    &&& (({
            let r = cursor_repo(s.ui.cursor);
            if s.ui.modal.is_none() && r.is_some() && r.unwrap() < s.repos@.len() {
                &&& eff matches Some(Effect::ListBranches { repo_idx, repo_root })
                &&& repo_idx == r.unwrap()
                &&& repo_root == s.repos@[repo_idx as int].root_path
            } else {
                eff.is_none()
            }
        }))
}

pub open spec fn open_remove_worktree_post<T>(pre: AppState<T>, post: AppState<T>, eff: Option<Effect>) -> bool {
    &&& (match (pre.ui.modal, pre.ui.cursor) {
            (None, Some(SidebarCursor::Worktree { repo, worktree })) => if repo < pre.repos@.len() && worktree
                < pre.repos@[repo as int].worktrees@.len() && !pre.repos@[repo as int].worktrees@[worktree as int].is_primary {
                let rp = pre.repos@[repo as int];
                let w = rp.worktrees@[worktree as int];
                match w.head {
                    HeadRef::Branch(b) => {
                        &&& post == pre
                        &&& eff matches Some(Effect::CheckMerged { id, repo_root, branch, base })
                        &&& id == (repo, worktree)
                        &&& repo_root == rp.root_path
                        &&& branch@ == b@
                        &&& base == rp.base_branch
                    },
                    HeadRef::Detached(_) => {
                        &&& post.ui.modal == Some(
                            Modal::ConfirmRemoveWorktree {
                                id: (repo, worktree),
                                variant: DeleteVariant::Merged,
                                pr_number: open_pr_number(w),
                                error: None,
                            },
                        )
                        &&& only_modal_changed(pre, post)
                        &&& eff.is_none()
                    },
                }
            } else {
                post == pre && eff.is_none()
            },
            _ => post == pre && eff.is_none(),
        })
}

pub open spec fn resolve_deletion_post<T>(pre: AppState<T>, post: AppState<T>, choice: DeleteChoice, eff: Option<Effect>) -> bool {
    &&& (match pre.ui.modal {
            Some(Modal::ConfirmRemoveWorktree { id, variant, pr_number, error }) => if choice == DeleteChoice::Delete
                && variant == DeleteVariant::Unmerged {
                &&& post.ui.modal matches Some(Modal::ConfirmRemoveWorktree { id: id2, variant: v2, pr_number: p2, error: Some(e) })
                &&& id2 == id && v2 == variant && p2 == pr_number && e@ == msg_unmerged()
                &&& only_modal_changed(pre, post)
                &&& eff.is_none()
            } else {
                &&& post.ui.modal.is_none()
                &&& only_modal_changed(pre, post)
                &&& if id.0 < pre.repos@.len() && id.1 < pre.repos@[id.0 as int].worktrees@.len() {
                    let rp = pre.repos@[id.0 as int];
                    let w = rp.worktrees@[id.1 as int];
                    if w.is_primary {
                        eff matches Some(Effect::Warn(msg)) && msg@ == msg_refuse_primary()
                    } else {
                        &&& eff matches Some(Effect::RemoveWorktree { id: rid, repo_root, remove, delete })
                        &&& rid == id
                        &&& repo_root == rp.root_path
                        &&& crate::commands::is_command(remove, rp.root_path@, seq![crate::commands::s_worktree(), seq!['r', 'e', 'm', 'o', 'v', 'e'], w.path@])
                        &&& match (choice, w.head) {
                            (DeleteChoice::Delete, HeadRef::Branch(b)) => delete matches Some(d) && d.branch@ == b@ && !d.force
                                && crate::commands::is_command(d.command, rp.root_path@, seq![crate::commands::s_branch(), seq!['-', 'D'], b@]),
                            (DeleteChoice::ForceDelete, HeadRef::Branch(b)) => delete matches Some(d) && d.branch@ == b@ && d.force
                                && crate::commands::is_command(d.command, rp.root_path@, seq![crate::commands::s_branch(), seq!['-', 'D'], b@]),
                            _ => delete.is_none(),
                        }
                    }
                } else {
                    eff.is_none()
                }
            },
            _ => post.ui.modal.is_none() && only_modal_changed(pre, post) && eff.is_none(),
        })
}

pub open spec fn submit_post<T>(pre: AppState<T>, post: AppState<T>, eff: Option<Effect>) -> bool {
    &&& (match pre.ui.modal {
            Some(Modal::AddRepo(m)) => if spec_trim(m.input@.0).len() == 0 {
                &&& post.ui.modal matches Some(Modal::AddRepo(m2))
                &&& m2.input == m.input && m2.completions == m.completions && m2.completion_cursor == m.completion_cursor
                &&& m2.error matches Some(e) && e@ == msg_empty_path()
                &&& only_modal_changed(pre, post)
                &&& eff.is_none()
            } else {
                &&& post.ui.modal.is_none()
                &&& only_modal_changed(pre, post)
                &&& eff matches Some(Effect::AddRepo { modal, raw })
                &&& modal == m
                &&& raw@ == spec_trim(m.input@.0)
            },
            Some(Modal::ConfirmRemoveRepo { repo_idx }) => {
                &&& post.ui.modal.is_none()
                &&& only_modal_changed(pre, post)
                &&& if repo_idx < pre.repos@.len() {
                    &&& eff matches Some(Effect::RemoveRepo { idx, config })
                    &&& idx == repo_idx
                    &&& config.general == pre.config.general
                    &&& config.theme == pre.config.theme
                    &&& config.repos@ == pre.config.repos@.filter(
                        |rc: crate::config::RepoConfig| rc.name@ != pre.repos@[repo_idx as int].name@,
                    )
                } else {
                    eff.is_none()
                }
            },
            Some(Modal::NewWorktree(m)) => if m.repo_idx >= pre.repos@.len() || (selected(m).is_none()
                && spec_trim(m.input@.0).len() == 0) {
                &&& post.ui.modal matches Some(Modal::NewWorktree(m2))
                &&& m2.repo_idx == m.repo_idx && m2.input == m.input && m2.branches == m.branches
                &&& m2.filter_matches == m.filter_matches && m2.cursor == m.cursor
                &&& m2.error matches Some(e) && e@ == if m.repo_idx >= pre.repos@.len() {
                    msg_repo_not_found()
                } else {
                    msg_empty_branch()
                }
                &&& only_modal_changed(pre, post)
                &&& eff.is_none()
            } else {
                &&& post.ui.modal.is_none()
                &&& only_modal_changed(pre, post)
                &&& eff matches Some(Effect::CreateWorktree { dialog, request })
                &&& dialog == m
                &&& request_ok(pre, m, request)
            },
            Some(Modal::ConfirmRemoveWorktree { .. }) => resolve_deletion_post(pre, post, DeleteChoice::KeepBranch, eff),
            Some(Modal::DiscoveredRepos(m)) => if m.scanning {
                post == pre && eff.is_none()
            } else {
                &&& post.ui.modal.is_none()
                &&& only_modal_changed(pre, post)
                &&& eff matches Some(Effect::AddDiscovered(d))
                &&& d == m
            },
            _ => post == pre && eff.is_none(),
        })
}

pub open spec fn cycle_theme_post<T>(pre: AppState<T>, post: AppState<T>, eff: Effect) -> bool {
    &&& (post.theme_name == crate::theme::spec_next(pre.theme_name))
    &&& (post.theme == crate::theme::spec_resolve(post.theme_name))
    &&& (post.config.theme.base == post.theme_name)
    &&& (post.config.general == pre.config.general)
    &&& (post.config.repos == pre.config.repos)
    &&& (eff matches Effect::SaveConfig)
    &&& (post.ui == pre.ui)
    &&& (post.repos == pre.repos)
    &&& (post.terminals == pre.terminals)
    &&& (post.diffs == pre.diffs)
    &&& (post.main_views == pre.main_views)
    &&& (post.config_path == pre.config_path)
    &&& (post.should_quit == pre.should_quit)
    &&& (post.activity == pre.activity)
    &&& (post.github_authenticated == pre.github_authenticated)
    &&& (post.has_github_repo == pre.has_github_repo)
    &&& (post.config_error == pre.config_error)
}

impl<T> AppState<T> {
    /// What the new-worktree dialog `m` asks to create: refused when its
    /// repository is gone, or when "create new branch" is chosen with an
    /// empty (after trimming) name.
    pub fn new_worktree_request(&self, m: &NewWorktreeModal) -> (r: Result<CreateRequest, String>)
        ensures
            m.repo_idx >= self.repos@.len() ==> (r matches Err(e) && e@ == msg_repo_not_found()),
            m.repo_idx < self.repos@.len() && selected(*m).is_none() && spec_trim(m.input@.0).len() == 0
                ==> (r matches Err(e) && e@ == msg_empty_branch()),
            m.repo_idx < self.repos@.len() && !(selected(*m).is_none() && spec_trim(m.input@.0).len() == 0)
                ==> (r matches Ok(req) && request_ok(*self, *m, req)),
    {
        if m.repo_idx >= self.repos.len() {
            proof {
                reveal_strlit("repo not found");
            }
            return Err(string_of("repo not found"));
        }
        let repo = &self.repos[m.repo_idx];
        let worktree_root = if m.repo_idx < self.config.repos.len() && self.config.repos[m.repo_idx].worktree_root.is_some() {
            clone_opt(&self.config.repos[m.repo_idx].worktree_root)
        } else {
            clone_opt(&self.config.general.worktree_root)
        };
        let source = match m.selected_branch() {
            None => {
                let value = m.input.value();
                let branch = trim(value.as_str());
                if branch.as_str().is_empty() {
                    proof {
                        reveal_strlit("branch name cannot be empty");
                    }
                    return Err(string_of("branch name cannot be empty"));
                }
                BranchSource::NewBranch(branch)
            },
            Some(entry) => match &entry.remote {
                Some(remote) => BranchSource::Remote { remote: remote.clone(), name: entry.name.clone() },
                None => BranchSource::Existing(entry.name.clone()),
            },
        };
        Ok(
            CreateRequest {
                repo_idx: m.repo_idx,
                repo_root: repo.root_path.clone(),
                repo_name: repo.name.clone(),
                base_branch: repo.base_branch.clone(),
                worktree_root,
                source,
            },
        )
    }

    /// Open the new-worktree dialog for the repository under the cursor;
    /// its branches are listed by the caller first.
    pub fn open_new_worktree(&self) -> (eff: Option<Effect>)
        ensures
            open_new_worktree_eff(*self, eff),
    {
        if self.ui.modal.is_some() {
            return None;
        }
        let repo_idx = match self.ui.cursor {
            Some(SidebarCursor::Repo(i)) => i,
            Some(SidebarCursor::Worktree { repo, .. }) => repo,
            None => return None,
        };
        if repo_idx >= self.repos.len() {
            return None;
        }
        Some(Effect::ListBranches { repo_idx, repo_root: self.repos[repo_idx].root_path.clone() })
    }

    /// The branches of repository `repo_idx` were listed: open its
    /// new-worktree dialog, unless a dialog is open or it is gone.
    pub fn open_new_worktree_with(&mut self, repo_idx: usize, branches: Vec<BranchEntry>)
        ensures
            old(self).ui.modal.is_none() && repo_idx < old(self).repos@.len() ==> {
                &&& final(self).ui.modal matches Some(Modal::NewWorktree(m))
                &&& m.repo_idx == repo_idx
                &&& m.branches@ == branches@
                &&& m.filter_matches@ == crate::modals::all_indices(branches@.len())
                &&& m.cursor == 0
                &&& m.input@ == (Seq::<char>::empty(), 0nat)
                &&& m.error.is_none()
                &&& only_modal_changed(*old(self), *final(self))
            },
            !(old(self).ui.modal.is_none() && repo_idx < old(self).repos@.len()) ==> *final(self) == *old(self),
    {
        if self.ui.modal.is_some() || repo_idx >= self.repos.len() {
            return;
        }
        self.ui.modal = Some(Modal::NewWorktree(NewWorktreeModal::for_repo(repo_idx, branches)));
    }

    /// Ask to remove the worktree under the cursor (never the primary
    /// checkout).  A worktree on a branch first needs to know whether the
    /// branch is merged into the repository's base (the effect); a
    /// detached one opens the dialog in its merged variant at once.
    pub fn open_confirm_remove_worktree(&mut self) -> (eff: Option<Effect>)
        ensures
            open_remove_worktree_post(*old(self), *final(self), eff),
    {
        if self.ui.modal.is_some() {
            return None;
        }
        let (repo, worktree) = match self.ui.cursor {
            Some(SidebarCursor::Worktree { repo, worktree }) => (repo, worktree),
            _ => return None,
        };
        if repo >= self.repos.len() || worktree >= self.repos[repo].worktrees.len() {
            return None;
        }
        let rp = &self.repos[repo];
        let w = &rp.worktrees[worktree];
        if w.is_primary {
            return None;
        }
        match &w.head {
            HeadRef::Branch(b) => Some(
                Effect::CheckMerged {
                    id: (repo, worktree),
                    repo_root: rp.root_path.clone(),
                    branch: b.clone(),
                    base: rp.base_branch.clone(),
                },
            ),
            HeadRef::Detached(_) => {
                self.open_confirm_remove_worktree_with((repo, worktree), true);
                None
            },
        }
    }

    /// Whether worktree `id`'s branch is merged is known: open the
    /// remove-worktree dialog in the matching variant, with the number of
    /// an open or draft pull request to warn about.
    pub fn open_confirm_remove_worktree_with(&mut self, id: WorktreeId, merged: bool)
        ensures
            ({
                let ok = old(self).ui.modal.is_none() && id.0 < old(self).repos@.len() && id.1
                    < old(self).repos@[id.0 as int].worktrees@.len()
                    && !old(self).repos@[id.0 as int].worktrees@[id.1 as int].is_primary;
                &&& ok ==> final(self).ui.modal == Some(
                    Modal::ConfirmRemoveWorktree {
                        id,
                        variant: if merged {
                            DeleteVariant::Merged
                        } else {
                            DeleteVariant::Unmerged
                        },
                        pr_number: open_pr_number(old(self).repos@[id.0 as int].worktrees@[id.1 as int]),
                        error: None,
                    },
                ) && only_modal_changed(*old(self), *final(self))
                &&& !ok ==> *final(self) == *old(self)
            }),
    {
        if self.ui.modal.is_some() || id.0 >= self.repos.len() || id.1 >= self.repos[id.0].worktrees.len() {
            return;
        }
        let w = &self.repos[id.0].worktrees[id.1];
        if w.is_primary {
            return;
        }
        let pr_number = match w.pr {
            Some(p) => if p.state == PrState::Open || p.state == PrState::Draft {
                Some(p.number)
            } else {
                None
            },
            None => None,
        };
        let variant = if merged {
            DeleteVariant::Merged
        } else {
            DeleteVariant::Unmerged
        };
        self.ui.modal = Some(Modal::ConfirmRemoveWorktree { id, variant, pr_number, error: None });
    }

    /// The user picked `choice` in the remove-worktree dialog.  "Delete"
    /// on an unmerged branch keeps the dialog open with an error; the
    /// primary checkout is refused with a warning; otherwise the dialog
    /// closes and the removal (and the branch deletion asked for, when
    /// the worktree is on a branch) is handed to the caller.
    pub fn resolve_worktree_deletion(&mut self, choice: DeleteChoice) -> (eff: Option<Effect>)
        ensures
            resolve_deletion_post(*old(self), *final(self), choice, eff),
    {
        let taken = self.ui.modal.take();
        let (id, variant, pr_number) = match taken {
            Some(Modal::ConfirmRemoveWorktree { id, variant, pr_number, .. }) => (id, variant, pr_number),
            _ => return None,
        };
        if choice == DeleteChoice::Delete && variant == DeleteVariant::Unmerged {
            let msg = string_of("branch has unmerged commits; press D to force-delete");
            proof {
                reveal_strlit("branch has unmerged commits; press D to force-delete");
                assert(msg@ =~= msg_unmerged());
            }
            self.ui.modal = Some(Modal::ConfirmRemoveWorktree { id, variant, pr_number, error: Some(msg) });
            return None;
        }
        if id.0 >= self.repos.len() || id.1 >= self.repos[id.0].worktrees.len() {
            return None;
        }
        let rp = &self.repos[id.0];
        let w = &rp.worktrees[id.1];
        if w.is_primary {
            let msg = string_of("failed to remove worktree: refusing to remove primary checkout");
            proof {
                reveal_strlit("failed to remove worktree: refusing to remove primary checkout");
                assert(msg@ =~= msg_refuse_primary());
            }
            return Some(Effect::Warn(msg));
        }
        let root = rp.root_path.as_str();
        let remove = remove_worktree(root, w.path.as_str());
        let delete = match (choice, &w.head) {
            (DeleteChoice::Delete, HeadRef::Branch(b)) => Some(
                BranchDeletion { branch: b.clone(), force: false, command: delete_branch(root, b.as_str()) },
            ),
            (DeleteChoice::ForceDelete, HeadRef::Branch(b)) => Some(
                BranchDeletion { branch: b.clone(), force: true, command: force_delete_branch(root, b.as_str()) },
            ),
            _ => None,
        };
        Some(Effect::RemoveWorktree { id, repo_root: rp.root_path.clone(), remove, delete })
    }

    /// Enter in a dialog.  The add-repository dialog refuses an empty
    /// path at once and otherwise closes and hands the trimmed path to
    /// the caller; the remove-repository dialog closes and hands over the
    /// configuration to save; the new-worktree dialog stays open with an
    /// error or closes and hands over the request; the remove-worktree
    /// dialog keeps the branch; the scan dialog waits for the scan, then
    /// hands over its selection.  Help and the log stay open.
    pub fn submit_modal(&mut self) -> (eff: Option<Effect>)
        ensures
            submit_post(*old(self), *final(self), eff),
    {
        let taken = self.ui.modal.take();
        match taken {
            Some(Modal::AddRepo(m)) => {
                let value = m.input.value();
                let raw = trim(value.as_str());
                if raw.as_str().is_empty() {
                    let msg = string_of("path cannot be empty");
                    proof {
                        reveal_strlit("path cannot be empty");
                        assert(msg@ =~= msg_empty_path());
                    }
                    let AddRepoModal { input, error: _, completions, completion_cursor } = m;
                    self.ui.modal = Some(Modal::AddRepo(AddRepoModal { input, error: Some(msg), completions, completion_cursor }));
                    None
                } else {
                    Some(Effect::AddRepo { modal: m, raw })
                }
            },
            Some(Modal::ConfirmRemoveRepo { repo_idx }) => {
                if repo_idx < self.repos.len() {
                    let config = self.config_without_repo(repo_idx);
                    Some(Effect::RemoveRepo { idx: repo_idx, config })
                } else {
                    None
                }
            },
            Some(Modal::NewWorktree(m)) => {
                match self.new_worktree_request(&m) {
                    Ok(request) => Some(Effect::CreateWorktree { dialog: m, request }),
                    Err(msg) => {
                        let NewWorktreeModal { repo_idx, input, error: _, branches, filter_matches, cursor } = m;
                        self.ui.modal = Some(
                            Modal::NewWorktree(NewWorktreeModal { repo_idx, input, error: Some(msg), branches, filter_matches, cursor }),
                        );
                        None
                    },
                }
            },
            Some(modal) => {
                match modal {
                    Modal::ConfirmRemoveWorktree { id, variant, pr_number, error } => {
                        self.ui.modal = Some(Modal::ConfirmRemoveWorktree { id, variant, pr_number, error });
                        self.resolve_worktree_deletion(DeleteChoice::KeepBranch)
                    },
                    Modal::DiscoveredRepos(m) => {
                        if m.scanning {
                            self.ui.modal = Some(Modal::DiscoveredRepos(m));
                            None
                        } else {
                            Some(Effect::AddDiscovered(m))
                        }
                    },
                    other => {
                        self.ui.modal = Some(other);
                        None
                    },
                }
            },
            None => None,
        }
    }

    /// Adding the repository failed: reopen its dialog with the message.
    pub fn reopen_add_repo(&mut self, m: AddRepoModal, msg: String)
        ensures
            final(self).ui.modal matches Some(Modal::AddRepo(m2)) && m2.input == m.input && m2.completions == m.completions
                && m2.completion_cursor == m.completion_cursor && m2.error == Some(msg),
            only_modal_changed(*old(self), *final(self)),
    {
        let AddRepoModal { input, error: _, completions, completion_cursor } = m;
        self.ui.modal = Some(Modal::AddRepo(AddRepoModal { input, error: Some(msg), completions, completion_cursor }));
    }

    /// Creating the worktree failed: reopen its dialog with the message.
    pub fn reopen_new_worktree(&mut self, m: NewWorktreeModal, msg: String)
        ensures
            final(self).ui.modal matches Some(Modal::NewWorktree(m2)) && m2.repo_idx == m.repo_idx && m2.input == m.input
                && m2.branches == m.branches && m2.filter_matches == m.filter_matches && m2.cursor == m.cursor
                && m2.error == Some(msg),
            only_modal_changed(*old(self), *final(self)),
    {
        let NewWorktreeModal { repo_idx, input, error: _, branches, filter_matches, cursor } = m;
        self.ui.modal = Some(Modal::NewWorktree(NewWorktreeModal { repo_idx, input, error: Some(msg), branches, filter_matches, cursor }));
    }

    /// Adding the selected repositories stopped on a failure: reopen the
    /// scan dialog with the message.
    pub fn reopen_discovered(&mut self, m: DiscoveredReposModal, msg: String)
        ensures
            final(self).ui.modal matches Some(Modal::DiscoveredRepos(m2)) && m2.scan_root == m.scan_root
                && m2.scanning == m.scanning && m2.candidates == m.candidates && m2.cursor == m.cursor
                && m2.error == Some(msg),
            only_modal_changed(*old(self), *final(self)),
    {
        let DiscoveredReposModal { scan_root, scanning, candidates, cursor, error: _ } = m;
        self.ui.modal = Some(Modal::DiscoveredRepos(DiscoveredReposModal { scan_root, scanning, candidates, cursor, error: Some(msg) }));
    }

    /// Switch to the next theme and record it in the configuration, which
    /// the caller saves.
    pub fn cycle_theme(&mut self) -> (eff: Effect)
        ensures
            cycle_theme_post(*old(self), *final(self), eff),
    {
        self.theme_name = self.theme_name.next();
        self.theme = crate::theme::resolve(self.theme_name);
        self.config.theme.base = self.theme_name;
        Effect::SaveConfig
    }
}

/// The candidates of a scan to add: selected and not tracked already.
pub open spec fn wanted(c: crate::modals::DiscoveredRepo) -> bool {
    c.selected && !c.already_configured
}

impl DiscoveredReposModal {
    /// The paths to add, in the order listed.
    pub fn paths_to_add(&self) -> (v: Vec<String>)
        ensures
            crate::view::string_views(v@) == self.candidates@.filter(|c: crate::modals::DiscoveredRepo| wanted(c)).map_values(
                |c: crate::modals::DiscoveredRepo| c.path@,
            ),
    {
        let ghost pred = |c: crate::modals::DiscoveredRepo| wanted(c);
        let ghost pv = |c: crate::modals::DiscoveredRepo| c.path@;
        let mut v: Vec<String> = Vec::new();
        let mut i: usize = 0;
        assert(self.candidates@.take(0).filter(pred) =~= Seq::<crate::modals::DiscoveredRepo>::empty());
        while i < self.candidates.len()
            invariant
                i <= self.candidates@.len(),
                pred == (|c: crate::modals::DiscoveredRepo| wanted(c)),
                pv == (|c: crate::modals::DiscoveredRepo| c.path@),
                crate::view::string_views(v@) == self.candidates@.take(i as int).filter(pred).map_values(pv),
            decreases self.candidates@.len() - i,
        {
            let c = &self.candidates[i];
            proof {
                assert(self.candidates@.take(i + 1) =~= self.candidates@.take(i as int).push(self.candidates@[i as int]));
                self.candidates@.take(i as int).lemma_filter_push(self.candidates@[i as int], pred);
            }
            let ghost pre = crate::view::string_views(v@);
            if c.selected && !c.already_configured {
                v.push(c.path.clone());
                assert(crate::view::string_views(v@) =~= pre.push(c.path@));
            }
            assert(self.candidates@.take(i as int).filter(pred).push(self.candidates@[i as int]).map_values(pv)
                =~= self.candidates@.take(i as int).filter(pred).map_values(pv).push(self.candidates@[i as int].path@));
            i += 1;
        }
        assert(self.candidates@.take(self.candidates@.len() as int) =~= self.candidates@);
        v
    }
}

/// `failed to add <path> (<error>); stopped after <n> repo(s)`.
pub open spec fn spec_stopped_message(path: Seq<char>, err: Seq<char>, added: nat) -> Seq<char> {
    seq!['f', 'a', 'i', 'l', 'e', 'd', ' ', 't', 'o', ' ', 'a', 'd', 'd', ' '] + path + seq![' ', '('] + err + seq![
        ')',
        ';',
        ' ',
        's',
        't',
        'o',
        'p',
        'p',
        'e',
        'd',
        ' ',
        'a',
        'f',
        't',
        'e',
        'r',
        ' ',
    ] + crate::text::decimal(added) + if added == 1 {
        seq![' ', 'r', 'e', 'p', 'o']
    } else {
        seq![' ', 'r', 'e', 'p', 'o', 's']
    }
}

/// The message when adding the scan's selection stopped at `path` after
/// `added` repositories were added.
pub fn stopped_message(path: &str, err: &str, added: usize) -> (m: String)
    ensures
        m@ == spec_stopped_message(path@, err@, added as nat),
{
    let mut m = string_of("failed to add ");
    m.append(path);
    m.append(" (");
    m.append(err);
    m.append("); stopped after ");
    crate::text::push_decimal(&mut m, added);
    if added == 1 {
        m.append(" repo");
    } else {
        m.append(" repos");
    }
    proof {
        reveal_strlit("failed to add ");
        reveal_strlit(" (");
        reveal_strlit("); stopped after ");
        reveal_strlit(" repo");
        reveal_strlit(" repos");
    }
    assert(m@ =~= spec_stopped_message(path@, err@, added as nat));
    m
}

#[verifier::external_type_specification]
#[verifier::external_body]
pub struct ExSystemTime(std::time::SystemTime);

/// `SystemTime::now`: a reading of the system clock.
#[verifier::external_body]
fn system_now() -> std::time::SystemTime {
    std::time::SystemTime::now()
}

/// `SystemTime::duration_since(UNIX_EPOCH)`: the time since the epoch,
/// `None` for a clock set before it.
#[verifier::external_body]
fn since_epoch(t: &std::time::SystemTime) -> Option<std::time::Duration> {
    t.duration_since(std::time::UNIX_EPOCH).ok()
}

/// `Duration::subsec_nanos`, which the documentation bounds below one
/// billion.
#[verifier::external_body]
fn duration_subsec_nanos(d: &std::time::Duration) -> (n: u32)
    ensures
        n < 1_000_000_000,
{
    d.subsec_nanos()
}

/// The sub-second nanoseconds of the system clock's time since the epoch
/// (0 for a clock set before the epoch); random slugs are drawn from it.
fn subsec_nanos_now() -> (n: u32)
    ensures
        n < 1_000_000_000,
{
    match since_epoch(&system_now()) {
        Some(d) => duration_subsec_nanos(&d),
        None => 0,
    }
}

pub open spec fn hex_digit(d: nat) -> char {
    if d < 10 {
        ((d + 48) as u8) as char
    } else {
        ((d - 10 + 97) as u8) as char
    }
}

/// `v` (below `16^6`) as six lower-case hexadecimal digits.
pub open spec fn hex6(v: nat) -> Seq<char> {
    Seq::new(6, |k: int| hex_digit(((v / pow16(5 - k)) % 16) as nat))
}

pub open spec fn pow16(e: int) -> nat
    decreases e,
{
    if e <= 0 {
        1
    } else {
        16 * pow16(e - 1)
    }
}

/// The six lower-case hex digits of the low 24 bits of `n`.
pub fn slug_of(n: u32) -> (s: String)
    ensures
        s@ == hex6((n % 16777216) as nat),
{
    let v = n % 16777216;
    let mut s = String::new();
    let mut k: u32 = 0;
    let mut div: u32 = 1048576;
    proof {
        reveal_with_fuel(pow16, 6);
    }
    while k < 6
        invariant
            k <= 6,
            v < 16777216,
            div > 0,
            div as nat == pow16(5 - k as int),
            s@ == hex6(v as nat).subrange(0, k as int),
        decreases 6 - k,
    {
        let d = (v / div) % 16;
        let c = if d < 10 {
            ((d + 48) as u8) as char
        } else {
            ((d - 10 + 97) as u8) as char
        };
        crate::text::push_char(&mut s, c);
        assert(s@ =~= hex6(v as nat).subrange(0, k + 1));
        if k < 5 {
            proof {
                assert(pow16(5 - k as int) == 16 * pow16(4 - k as int));
            }
            div = div / 16;
        }
        k += 1;
    }
    s
}

/// The worktree is on branch `name`.
pub open spec fn on_branch(w: Worktree, name: Seq<char>) -> bool {
    match w.head {
        HeadRef::Branch(b) => b@ == name,
        HeadRef::Detached(_) => false,
    }
}

/// A random six-hex-digit suffix.
pub fn random_slug() -> (s: String)
    ensures
        exists|n: nat| n < 16777216 && s@ == #[trigger] hex6(n),
{
    let n = subsec_nanos_now();
    let s = slug_of(n);
    assert(hex6((n % 16777216) as nat) == s@);
    s
}

/// `<branch_name>-<slug>`.
pub open spec fn local_candidate(branch_name: Seq<char>, slug: Seq<char>) -> Seq<char> {
    branch_name.push('-') + slug
}

/// Some worktree of `repo` is on branch `name`.
pub open spec fn name_in_use(repo: Repo, name: Seq<char>) -> bool {
    exists|i: int| 0 <= i < repo.worktrees@.len() && on_branch(#[trigger] repo.worktrees@[i], name)
}

fn candidate_name(branch_name: &str, slug: &str) -> (r: String)
    ensures
        r@ == local_candidate(branch_name@, slug@),
{
    let mut c = string_of(branch_name);
    crate::text::push_char(&mut c, '-');
    c.append(slug);
    c
}

/// Whether a worktree of `repo` is on branch `name`.
pub fn branch_in_use(repo: &Repo, name: &str) -> (b: bool)
    ensures
        b == name_in_use(*repo, name@),
{
    let mut i: usize = 0;
    while i < repo.worktrees.len()
        invariant
            i <= repo.worktrees@.len(),
            forall|j: int| 0 <= j < i ==> !on_branch(#[trigger] repo.worktrees@[j], name@),
        decreases repo.worktrees@.len() - i,
    {
        match &repo.worktrees[i].head {
            HeadRef::Branch(b) => {
                if crate::text::str_eq(b.as_str(), name) {
                    assert(on_branch(repo.worktrees@[i as int], name@));
                    return true;
                }
            },
            HeadRef::Detached(_) => {},
        }
        i += 1;
    }
    false
}

/// One attempt at a local branch name with suffix `slug`, given whether
/// the path of its worktree is taken: the name `<branch_name>-<slug>`
/// when no worktree of `repo` is on it and the path is free, else `None`.
pub fn local_name_attempt(repo: &Repo, branch_name: &str, slug: &str, path_taken: bool) -> (r: Option<String>)
    ensures
        r matches Some(n) ==> n@ == local_candidate(branch_name@, slug@),
        r is Some <==> !path_taken && !name_in_use(*repo, local_candidate(branch_name@, slug@)),
{
    let candidate = candidate_name(branch_name, slug);
    if !path_taken && !branch_in_use(repo, candidate.as_str()) {
        Some(candidate)
    } else {
        None
    }
}

/// A local branch name for tracking remote branch `branch_name`:
/// `<branch_name>-<6 hex digits>`, not the branch of a worktree of `repo`
/// and not naming a worktree path that exists.  Five random suffixes are
/// tried; each attempt is decided by `local_name_attempt`.
pub fn generate_unique_local_name(repo: &Repo, branch_name: &str, worktree_root: Option<&str>) -> (r: Result<String, String>)
    ensures
        r matches Ok(name) ==> exists|n: nat| n < 16777216 && name@ == #[trigger] local_candidate(branch_name@, hex6(n)),
        r matches Ok(name) ==> !name_in_use(*repo, name@),
        r matches Ok(name) ==> name@.len() == branch_name@.len() + 7 && name@.subrange(0, branch_name@.len() as int + 1)
            == branch_name@.push('-') && forall|i: int| 0 <= i < repo.worktrees@.len() ==> !on_branch(#[trigger] repo.worktrees@[i], name@),
        r matches Err(msg) ==> msg@ == seq![
            'c', 'o', 'u', 'l', 'd', ' ', 'n', 'o', 't', ' ', 'g', 'e', 'n', 'e', 'r', 'a', 't', 'e', ' ', 'a', ' ', 'u', 'n', 'i',
            'q', 'u', 'e', ' ', 'l', 'o', 'c', 'a', 'l', ' ', 'b', 'r', 'a', 'n', 'c', 'h', ' ', 'n', 'a', 'm', 'e', ' ', 'a', 'f',
            't', 'e', 'r', ' ', '5', ' ', 'a', 't', 't', 'e', 'm', 'p', 't', 's',
        ],
{
    let mut attempt: u32 = 0;
    while attempt < 5
        invariant
            attempt <= 5,
        decreases 5 - attempt,
    {
        let slug = random_slug();
        let candidate = candidate_name(branch_name, slug.as_str());
        let path = crate::git::derive_worktree_path(repo.root_path.as_str(), repo.name.as_str(), candidate.as_str(), worktree_root);
        // The disk is asked only about a name no worktree is on.
        let path_taken = branch_in_use(repo, candidate.as_str()) || crate::git::path_exists(path.as_str());
        match local_name_attempt(repo, branch_name, slug.as_str(), path_taken) {
            Some(name) => {
                proof {
                    let n = choose|n: nat| n < 16777216 && slug@ == #[trigger] hex6(n);
                    assert(name@ == local_candidate(branch_name@, hex6(n)));
                    assert(hex6(n).len() == 6);
                    assert(name@.subrange(0, branch_name@.len() as int + 1) =~= branch_name@.push('-'));
                    assert forall|i: int| 0 <= i < repo.worktrees@.len() implies !on_branch(#[trigger] repo.worktrees@[i], name@) by {
                        if on_branch(repo.worktrees@[i], name@) {
                            assert(name_in_use(*repo, name@));
                        }
                    }
                }
                return Ok(name);
            },
            None => {},
        }
        attempt += 1;
    }
    proof {
        reveal_strlit("could not generate a unique local branch name after 5 attempts");
    }
    Err(string_of("could not generate a unique local branch name after 5 attempts"))
}

} // verus!