//! Adding and removing tracked repositories, and the candidates a
//! directory scan offers.

use vstd::prelude::*;

use crate::app::{AppState, SidebarCursor, frame};
use crate::config::{Config, RepoConfig};
use crate::git::{last_pos, strip_slashes};
use crate::idmap::{KeyRemap, WorktreeId, remapped, spec_key_remap};
use crate::modals::{DiscoveredRepo, Modal};
use crate::model::{Repo, Worktree};
use crate::text::string_of;

verus! {

/// The last component of a canonical path (absolute, no `.` or `..`
/// components): what follows the last `/` once trailing slashes are
/// dropped; `None` for the root, the empty path or a `..` component.
pub open spec fn file_name_of(p: Seq<char>) -> Option<Seq<char>> {
    let q = strip_slashes(p);
    let seg = match last_pos(q, '/') {
        Some(k) => q.subrange(k + 1, q.len() as int),
        None => q,
    };
    if seg.len() == 0 || seg == seq!['.', '.'] {
        None
    } else {
        Some(seg)
    }
}

/// The name a repository at canonical path `path` gets.
pub fn file_name(path: &str) -> (r: Option<String>)
    ensures
        match r {
            Some(s) => file_name_of(path@) == Some(s@),
            None => file_name_of(path@).is_none(),
        },
{
    let v = crate::text::chars_of(path);
    let len = v.len();
    let n = crate::git::strip_slashes_len(&v, len);
    let ghost q = v@.subrange(0, n as int);
    assert(v@.subrange(0, len as int) =~= v@);
    let mut k = n;
    while k > 0 && v[k - 1] != '/'
        invariant
            k <= n <= v@.len(),
            forall|j: int| k <= j < n ==> v@[j] != '/',
        decreases k,
    {
        k -= 1;
    }
    proof {
        if k == 0 {
            assert forall|i: int| 0 <= i < q.len() implies q[i] != '/' by {}
            assert(q.subrange(0, q.len() as int) =~= q);
        } else {
            let c = choose|i: int| 0 <= i < q.len() && q[i] == '/' && forall|j: int| i < j < q.len() ==> q[j] != '/';
            assert(c == k - 1);
        }
        assert(q.subrange(k as int, n as int) =~= v@.subrange(k as int, n as int));
    }
    let seg = crate::text::string_from_chars(&v, k, n);
    if n - k == 0 {
        return None;
    }
    if n - k == 2 && v[k] == '.' && v[k + 1] == '.' {
        assert(seg@ =~= seq!['.', '.']);
        return None;
    }
    proof {
        if seg@ == seq!['.', '.'] {
            assert(seg@[0] == v@[k as int]);
            assert(seg@[1] == v@[k + 1]);
        }
    }
    Some(seg)
}

pub open spec fn msg_not_dir() -> Seq<char> {
    seq!['n', 'o', 't', ' ', 'a', ' ', 'd', 'i', 'r', 'e', 'c', 't', 'o', 'r', 'y', ':', ' ']
}

pub open spec fn msg_not_repo() -> Seq<char> {
    seq!['n', 'o', 't', ' ', 'a', ' ', 'g', 'i', 't', ' ', 'r', 'e', 'p', 'o', 's', 'i', 't', 'o', 'r', 'y', ':', ' ']
}

pub open spec fn msg_no_name() -> Seq<char> {
    seq![
        'c', 'o', 'u', 'l', 'd', ' ', 'n', 'o', 't', ' ', 'd', 'e', 'r', 'i', 'v', 'e', ' ', 'r', 'e', 'p', 'o', ' ', 'n',
        'a', 'm', 'e', ' ', 'f', 'r', 'o', 'm', ' ', 'p', 'a', 't', 'h',
    ]
}

/// `a repository named '<n>' already exists`.
pub open spec fn msg_name_taken(n: Seq<char>) -> Seq<char> {
    seq!['a', ' ', 'r', 'e', 'p', 'o', 's', 'i', 't', 'o', 'r', 'y', ' ', 'n', 'a', 'm', 'e', 'd', ' ', '\''] + n
        + seq!['\'', ' ', 'a', 'l', 'r', 'e', 'a', 'd', 'y', ' ', 'e', 'x', 'i', 's', 't', 's']
}

/// The name a repository at `path` is added under, or why it is not.
pub open spec fn spec_repo_name_for(c: Config, path: Seq<char>, is_dir: bool, is_git_repo: bool) -> Result<Seq<char>, Seq<char>> {
    if !is_dir {
        Err(msg_not_dir() + path)
    } else if !is_git_repo {
        Err(msg_not_repo() + path)
    } else {
        match file_name_of(path) {
            None => Err(msg_no_name()),
            Some(n) => if c.spec_has_repo_named(n) {
                Err(msg_name_taken(n))
            } else {
                Ok(n)
            },
        }
    }
}

/// Repository configurations not named `n`.
pub open spec fn named_other(n: Seq<char>) -> spec_fn(RepoConfig) -> bool {
    |rc: RepoConfig| rc.name@ != n
}

/// `s` cut or padded with `None` to length `n`.
pub open spec fn resized(s: Seq<Option<u64>>, n: nat) -> Seq<Option<u64>> {
    Seq::new(n, |i: int| if i < s.len() { s[i] } else { None })
}

/// A candidate of a directory scan: its canonical path, its name, and
/// whether it is tracked already (then it starts unselected).
pub open spec fn spec_candidate(path: Seq<char>, configured: Seq<String>, c: DiscoveredRepo) -> bool {
    let already = exists|i: int| 0 <= i < configured.len() && (#[trigger] configured[i])@ == path;
    &&& c.path@ == path
    &&& c.name@ == match file_name_of(path) {
        Some(n) => n,
        None => path,
    }
    &&& c.already_configured == already
    &&& c.selected == !already
}

fn contains_path(list: &Vec<String>, p: &str) -> (b: bool)
    ensures
        b == exists|i: int| 0 <= i < list@.len() && (#[trigger] list@[i])@ == p@,
{
    let mut i: usize = 0;
    while i < list.len()
        invariant
            i <= list@.len(),
            forall|j: int| 0 <= j < i ==> (#[trigger] list@[j])@ != p@,
        decreases list@.len() - i,
    {
        if crate::text::str_eq(list[i].as_str(), p) {
            return true;
        }
        i += 1;
    }
    false
}

impl<T> AppState<T> {
    /// The configuration without repository `idx` (by name), to be saved
    /// before the repository is dropped.
    pub fn config_without_repo(&self, idx: usize) -> (c: Config)
        requires
            idx < self.repos@.len(),
        ensures
            c.general == self.config.general,
            c.theme == self.config.theme,
            c.repos@ == self.config.repos@.filter(named_other(self.repos@[idx as int].name@)),
    {
        let name = self.repos[idx].name.as_str();
        let mut repos: Vec<RepoConfig> = Vec::new();
        let mut i: usize = 0;
        let ghost pred = named_other(self.repos@[idx as int].name@);
        while i < self.config.repos.len()
            invariant
                i <= self.config.repos@.len(),
                name@ == self.repos@[idx as int].name@,
                pred == named_other(self.repos@[idx as int].name@),
                repos@ == self.config.repos@.subrange(0, i as int).filter(pred),
            decreases self.config.repos@.len() - i,
        {
            proof {
                let x = self.config.repos@[i as int];
                assert(self.config.repos@.subrange(0, i + 1) =~= self.config.repos@.subrange(0, i as int).push(x));
                self.config.repos@.subrange(0, i as int).lemma_filter_push(x, pred);
            }
            let ghost before = repos@;
            if !crate::text::str_eq(self.config.repos[i].name.as_str(), name) {
                let rc = self.config.repos[i].clone();
                assert(pred(rc));
                repos.push(rc);
                assert(repos@ =~= before.push(self.config.repos@[i as int]));
            } else {
                assert(!pred(self.config.repos@[i as int]));
            }
            i += 1;
        }
        assert(self.config.repos@.subrange(0, self.config.repos@.len() as int) =~= self.config.repos@);
        Config { general: self.config.general.clone(), theme: self.config.theme, repos }
    }

    /// The configuration was saved without repository `idx`: drop it from
    /// the sidebar, its fetch time, its expand flag and its terminals (the
    /// terminals of later repositories move up one), and put the cursor on
    /// the repository now at `idx` (or the last one, or nowhere).
    pub fn commit_remove_repo(&mut self, idx: usize, new_config: Config, has_github_repo: bool)
        requires
            idx < old(self).repos@.len(),
        ensures
            final(self).config == new_config,
            final(self).repos@ == old(self).repos@.remove(idx as int),
            final(self).activity@.0 == old(self).activity@.0,
            final(self).activity@.1 == old(self).activity@.1,
            final(self).activity@.2 == resized(
                if idx < old(self).activity@.2.len() {
                    old(self).activity@.2.remove(idx as int)
                } else {
                    old(self).activity@.2
                },
                final(self).repos@.len(),
            ),
            final(self).has_github_repo == has_github_repo,
            final(self).ui.expanded@ == old(self).ui.expanded@.remove(old(self).repos@[idx as int].root_path@),
            remapped(old(self).terminals@, |k: WorktreeId| spec_key_remap(KeyRemap::RepoRemoved(idx), k), final(self).terminals@),
            final(self).ui.cursor == if final(self).repos@.len() == 0 {
                None
            } else if idx < final(self).repos@.len() {
                Some(SidebarCursor::Repo(idx))
            } else {
                Some(SidebarCursor::Repo((final(self).repos@.len() - 1) as usize))
            },
            final(self).ui.modal == old(self).ui.modal,
            final(self).ui.focus == old(self).ui.focus,
            final(self).ui.help_scroll == old(self).ui.help_scroll,
            final(self).config_path == old(self).config_path,
            final(self).diffs == old(self).diffs,
            final(self).main_views == old(self).main_views,
            final(self).theme == old(self).theme,
            final(self).theme_name == old(self).theme_name,
            final(self).should_quit == old(self).should_quit,
            final(self).github_authenticated == old(self).github_authenticated,
            final(self).config_error == old(self).config_error,
    {
        self.config = new_config;
        let removed = self.repos.remove(idx);
        self.activity.remove_repo(idx);
        self.activity.resize_repos(self.repos.len());
        proof {
            let a = self.activity@.2;
            let b = resized(
                if idx < old(self).activity@.2.len() {
                    old(self).activity@.2.remove(idx as int)
                } else {
                    old(self).activity@.2
                },
                self.repos@.len(),
            );
            assert(a =~= b);
        }
        self.has_github_repo = has_github_repo;
        self.ui.expanded.remove(removed.root_path.as_str());
        self.terminals.remap(&KeyRemap::RepoRemoved(idx));
        let n = self.repos.len();
        self.ui.cursor = if n == 0 {
            None
        } else if idx < n {
            Some(SidebarCursor::Repo(idx))
        } else {
            Some(SidebarCursor::Repo(n - 1))
        };
    }

    /// Refuse a repository whose name is taken.
    pub fn check_repo_name(&self, name: &str) -> (r: Result<(), String>)
        ensures
            r.is_ok() == !self.config.spec_has_repo_named(name@),
            r matches Err(msg) ==> msg@ == seq!['a', ' ', 'r', 'e', 'p', 'o', 's', 'i', 't', 'o', 'r', 'y', ' ', 'n', 'a', 'm', 'e', 'd', ' ', '\''] + name@ + seq!['\'', ' ', 'a', 'l', 'r', 'e', 'a', 'd', 'y', ' ', 'e', 'x', 'i', 's', 't', 's'],
    {
        if self.config.has_repo_named(name) {
            let mut msg = crate::text::string_of("a repository named '");
            msg.append(name);
            msg.append("' already exists");
            proof {
                reveal_strlit("a repository named '");
                reveal_strlit("' already exists");
            }
            Err(msg)
        } else {
            Ok(())
        }
    }

    /// The name a repository at the canonical `path` is added under, once
    /// the caller found whether `path` is a directory and a git
    /// repository: refused when it is not, when it has no last component,
    /// or when the name is taken.
    pub fn repo_name_for(&self, path: &str, is_dir: bool, is_git_repo: bool) -> (r: Result<String, String>)
        ensures
            match r {
                Ok(n) => spec_repo_name_for(self.config, path@, is_dir, is_git_repo) == Ok::<Seq<char>, Seq<char>>(n@),
                Err(m) => spec_repo_name_for(self.config, path@, is_dir, is_git_repo) == Err::<Seq<char>, Seq<char>>(m@),
            },
    {
        if !is_dir {
            let mut m = string_of("not a directory: ");
            proof {
                reveal_strlit("not a directory: ");
            }
            m.append(path);
            assert(m@ =~= msg_not_dir() + path@);
            return Err(m);
        }
        if !is_git_repo {
            let mut m = string_of("not a git repository: ");
            proof {
                reveal_strlit("not a git repository: ");
            }
            m.append(path);
            assert(m@ =~= msg_not_repo() + path@);
            return Err(m);
        }
        let name = match file_name(path) {
            Some(n) => n,
            None => {
                let m = string_of("could not derive repo name from path");
                proof {
                    reveal_strlit("could not derive repo name from path");
                    assert(m@ =~= msg_no_name());
                }
                return Err(m);
            },
        };
        match self.check_repo_name(name.as_str()) {
            Ok(()) => Ok(name),
            Err(m) => Err(m),
        }
    }

    /// The configuration with repository `name` at `path` added (its base
    /// branch the detected one, if any), to be saved before it is added.
    pub fn config_with_repo(&self, name: &str, path: &str, detected: &Option<String>) -> (c: Config)
        ensures
            c.general == self.config.general,
            c.theme == self.config.theme,
            c.repos@.len() == self.config.repos@.len() + 1,
            c.repos@.drop_last() == self.config.repos@,
            c.repos@.last().name@ == name@,
            c.repos@.last().path@ == path@,
            c.repos@.last().base_branch == *detected,
            c.repos@.last().worktree_root.is_none(),
    {
        let mut c = self.config.copy();
        c.repos.push(
            RepoConfig {
                name: crate::text::string_of(name),
                path: crate::text::string_of(path),
                base_branch: crate::config::copy_opt_string(detected),
                worktree_root: None,
            },
        );
        assert(c.repos@.drop_last() =~= self.config.repos@);
        c
    }

    /// The configuration with the new repository was saved: add it to
    /// the sidebar (base branch the detected one, else the configured
    /// default) and put the cursor on it.
    pub fn commit_add_repo(
        &mut self,
        new_config: Config,
        name: String,
        path: String,
        detected: Option<String>,
        worktrees: Vec<Worktree>,
        has_github_repo: bool,
    )
        requires
            old(self).repos@.len() < usize::MAX,
        ensures
            final(self).config == new_config,
            final(self).repos@.len() == old(self).repos@.len() + 1,
            final(self).repos@.drop_last() == old(self).repos@,
            final(self).repos@.last().name == name,
            final(self).repos@.last().root_path == path,
            final(self).repos@.last().base_branch@ == match detected {
                Some(b) => b@,
                None => old(self).config.general.default_base_branch@,
            },
            final(self).repos@.last().worktrees@ == worktrees@,
            final(self).activity@.0 == old(self).activity@.0,
            final(self).activity@.1 == old(self).activity@.1,
            final(self).activity@.2 == resized(old(self).activity@.2, final(self).repos@.len()),
            final(self).has_github_repo == has_github_repo,
            final(self).ui.cursor == Some(SidebarCursor::Repo(old(self).repos@.len() as usize)),
            final(self).ui.expanded == old(self).ui.expanded,
            final(self).ui.modal == old(self).ui.modal,
            final(self).ui.focus == old(self).ui.focus,
            final(self).ui.help_scroll == old(self).ui.help_scroll,
            final(self).config_path == old(self).config_path,
            final(self).terminals == old(self).terminals,
            final(self).diffs == old(self).diffs,
            final(self).main_views == old(self).main_views,
            final(self).theme == old(self).theme,
            final(self).theme_name == old(self).theme_name,
            final(self).should_quit == old(self).should_quit,
            final(self).github_authenticated == old(self).github_authenticated,
            final(self).config_error == old(self).config_error,
    {
        let base_branch = match detected {
            Some(b) => b,
            None => self.config.general.default_base_branch.clone(),
        };
        self.config = new_config;
        self.repos.push(Repo { name, root_path: path, base_branch, worktrees });
        assert(self.repos@.drop_last() =~= old(self).repos@);
        self.activity.resize_repos(self.repos.len());
        assert(self.activity@.2 =~= resized(old(self).activity@.2, self.repos@.len()));
        self.has_github_repo = has_github_repo;
        self.ui.cursor = Some(SidebarCursor::Repo(self.repos.len() - 1));
    }

    /// A directory scan finished: offer the found repositories (canonical
    /// paths), those already tracked (`configured`, canonical too)
    /// unselected, with the cursor on the first.
    pub fn apply_scan_results(&mut self, paths: Vec<String>, configured: Vec<String>)
        ensures
            match old(self).ui.modal {
                Some(Modal::DiscoveredRepos(m)) => {
                    &&& final(self).ui.modal matches Some(Modal::DiscoveredRepos(m2))
                    &&& !m2.scanning
                    &&& m2.cursor == 0
                    &&& m2.candidates@.len() == paths@.len()
                    &&& forall|i: int| 0 <= i < paths@.len() ==> spec_candidate(paths@[i]@, configured@, #[trigger] m2.candidates@[i])
                    &&& m2.scan_root == m.scan_root
                    &&& m2.error == m.error
                    &&& crate::dialogs::only_modal_changed(*old(self), *final(self))
                },
                _ => *final(self) == *old(self),
            },
    {
        if let Some(Modal::DiscoveredRepos(m)) = &mut self.ui.modal {
            let mut candidates: Vec<DiscoveredRepo> = Vec::new();
            let mut i: usize = 0;
            while i < paths.len()
                invariant
                    i <= paths@.len(),
                    candidates@.len() == i,
                    forall|j: int| 0 <= j < i ==> spec_candidate(paths@[j]@, configured@, #[trigger] candidates@[j]),
                decreases paths@.len() - i,
            {
                let p = paths[i].as_str();
                let already = contains_path(&configured, p);
                let name = match file_name(p) {
                    Some(n) => n,
                    None => crate::text::string_of(p),
                };
                candidates.push(DiscoveredRepo { path: crate::text::string_of(p), name, already_configured: already, selected: !already });
                i += 1;
            }
            m.scanning = false;
            m.cursor = 0;
            m.candidates = candidates;
        }
    }
}

} // verus!
