//! The application state and its transitions.  Every key press becomes an
//! [`AppMessage`]; [`AppState::update`] applies it and, where the message
//! needs the outside world (git, the file system, the terminals), returns
//! the [`Effect`] to perform.  The binary performs it and hands the result
//! back through the `*_with` / `commit_*` / `finish_*` methods.

use vstd::prelude::*;

use crate::activity::ActivityState;
use crate::config::Config;
use crate::flags::PathFlags;
use crate::git::DiffFile;
use crate::idmap::{WorktreeId, WorktreeMap};
use crate::commands::GitCommand;
use crate::flows::{BranchDeletion, CreateRequest};
use crate::modals::{AddRepoModal, DiscoveredReposModal, Modal, NewWorktreeModal};
use crate::model::Repo;
use crate::terminals::WorktreeTerminals;
use crate::theme::{Theme, ThemeName};

verus! {

/// Which half of the screen has the keyboard.
#[derive(Debug, Clone, Copy, PartialEq, Eq, Structural)]
pub enum FocusZone {
    Sidebar,
    Main,
}

/// What the main pane shows for a worktree.
#[derive(Debug, Clone, Copy, PartialEq, Eq, Structural)]
pub enum MainView {
    Terminal,
    Diff,
}

/// Working-tree changes, or the branch against its base.
#[derive(Debug, Clone, Copy, PartialEq, Eq, Structural)]
pub enum DiffMode {
    Local,
    Branch,
}

/// Which diff panel has the keyboard.
#[derive(Debug, Clone, Copy, PartialEq, Eq, Structural)]
pub enum DiffFocus {
    List,
    Content,
}

/// The diff view of one worktree.
#[derive(Debug)]
pub struct DiffState {
    pub files: Vec<DiffFile>,
    pub cursor: usize,
    pub scroll: u16,
    pub diff_focus: DiffFocus,
    pub mode: DiffMode,
}

impl Default for DiffState {
    fn default() -> (d: Self)
        ensures
            d.files@.len() == 0,
            d.cursor == 0,
            d.scroll == 0,
            d.diff_focus == DiffFocus::List,
            d.mode == DiffMode::Local,
    {
        DiffState { files: Vec::new(), cursor: 0, scroll: 0, diff_focus: DiffFocus::List, mode: DiffMode::Local }
    }
}

/// A row of the sidebar: a repository, or one of its worktrees.
#[derive(Debug, Clone, Copy, PartialEq, Eq, Structural)]
pub enum SidebarCursor {
    Repo(usize),
    Worktree { repo: usize, worktree: usize },
}

#[derive(Debug, Clone, Copy, PartialEq, Eq, Structural)]
pub enum Direction {
    Up,
    Down,
}

/// Sidebar and dialog state.
#[derive(Debug)]
pub struct UiState {
    /// Explicit expand (`true`) or collapse (`false`) choices by repo path;
    /// repositories without an entry are expanded.
    pub expanded: PathFlags,
    pub cursor: Option<SidebarCursor>,
    pub modal: Option<Modal>,
    pub focus: FocusZone,
    pub help_scroll: u16,
}

/// Repositories are expanded unless collapsed explicitly.
pub open spec fn spec_is_expanded(expanded: Map<Seq<char>, bool>, path: Seq<char>) -> bool {
    if expanded.contains_key(path) {
        expanded[path]
    } else {
        true
    }
}

impl UiState {
    pub fn new() -> (u: Self)
        ensures
            u.expanded@ == Map::<Seq<char>, bool>::empty(),
            u.cursor.is_none(),
            u.modal.is_none(),
            u.focus == FocusZone::Sidebar,
            u.help_scroll == 0,
    {
        UiState { expanded: PathFlags::new(), cursor: None, modal: None, focus: FocusZone::Sidebar, help_scroll: 0 }
    }

    /// Is the repository at `repo_path` expanded in the sidebar?
    pub fn is_expanded(&self, repo_path: &str) -> (b: bool)
        ensures
            b == spec_is_expanded(self.expanded@, repo_path@),
    {
        match self.expanded.get(repo_path) {
            Some(v) => v,
            None => true,
        }
    }
}

/// The sidebar rows of worktrees `0..n` of repository `r`.
pub open spec fn worktree_rows(r: usize, n: nat) -> Seq<SidebarCursor> {
    Seq::new(n, |j: int| SidebarCursor::Worktree { repo: r, worktree: j as usize })
}

/// The sidebar rows of the first `n` repositories, top to bottom: each
/// repository, then its worktrees when it is expanded.
pub open spec fn visible_upto(repos: Seq<Repo>, expanded: Map<Seq<char>, bool>, n: nat) -> Seq<SidebarCursor>
    decreases n,
{
    if n == 0 {
        Seq::empty()
    } else {
        let r = (n - 1) as usize;
        let prev = visible_upto(repos, expanded, (n - 1) as nat).push(SidebarCursor::Repo(r));
        if spec_is_expanded(expanded, repos[n - 1].root_path@) {
            prev + worktree_rows(r, repos[n - 1].worktrees@.len())
        } else {
            prev
        }
    }
}

pub open spec fn spec_visible(repos: Seq<Repo>, expanded: Map<Seq<char>, bool>) -> Seq<SidebarCursor> {
    visible_upto(repos, expanded, repos.len())
}

/// The row names an existing repository, and on a worktree row an
/// existing worktree of it.
pub open spec fn row_exists(repos: Seq<Repo>, c: SidebarCursor) -> bool {
    match c {
        SidebarCursor::Repo(r) => r < repos.len(),
        SidebarCursor::Worktree { repo, worktree } => repo < repos.len() && worktree < repos[repo as int].worktrees@.len(),
    }
}

/// Every count of `repos` fits a `usize`, as it does for the lists of a
/// running program.
pub open spec fn counts_fit(repos: Seq<Repo>) -> bool {
    &&& repos.len() <= usize::MAX
    &&& forall|i: int| 0 <= i < repos.len() ==> (#[trigger] repos[i]).worktrees@.len() <= usize::MAX
}

pub proof fn lemma_visible_rows_exist(repos: Seq<Repo>, expanded: Map<Seq<char>, bool>, n: nat)
    requires
        n <= repos.len(),
        counts_fit(repos),
    ensures
        forall|i: int| 0 <= i < visible_upto(repos, expanded, n).len() ==> row_exists(repos, #[trigger] visible_upto(repos, expanded, n)[i]),
    decreases n,
{
    if n > 0 {
        lemma_visible_rows_exist(repos, expanded, (n - 1) as nat);
        let r = (n - 1) as usize;
        let prev = visible_upto(repos, expanded, (n - 1) as nat);
        let with_repo = prev.push(SidebarCursor::Repo(r));
        let rows = worktree_rows(r, repos[n - 1].worktrees@.len());
        let v = visible_upto(repos, expanded, n);
        assert forall|i: int| 0 <= i < v.len() implies row_exists(repos, #[trigger] v[i]) by {
            if i < prev.len() {
                assert(v[i] == prev[i]);
            } else if i == prev.len() {
                assert(v[i] == SidebarCursor::Repo(r));
            } else {
                assert(v[i] == rows[i - with_repo.len()]);
            }
        }
    }
}

/// The repositories of a state fit the machine's counts.
pub proof fn lemma_counts_fit<T>(s: &AppState<T>)
    ensures
        counts_fit(s.repos@),
{
    assert(s.repos.len() == s.repos@.len());
    assert forall|i: int| 0 <= i < s.repos@.len() implies (#[trigger] s.repos@[i]).worktrees@.len() <= usize::MAX by {
        assert(s.repos@[i].worktrees.len() == s.repos@[i].worktrees@.len());
    }
}

/// Moving the cursor lands it on a row of the sidebar (when there is
/// one): on an existing repository or an existing worktree.
pub proof fn law_cursor_lands_on_visible_row(repos: Seq<Repo>, expanded: Map<Seq<char>, bool>, cur: Option<SidebarCursor>, dir: Direction)
    requires
        counts_fit(repos),
        spec_visible(repos, expanded).len() > 0,
    ensures
        spec_moved_cursor(spec_visible(repos, expanded), cur, dir) matches Some(c) && spec_visible(repos, expanded).contains(c)
            && row_exists(repos, c),
{
    let v = spec_visible(repos, expanded);
    lemma_visible_rows_exist(repos, expanded, repos.len());
    lemma_first_pos_bound(v, cur.unwrap_or(v[0]), 0);
    let c = spec_moved_cursor(v, cur, dir).unwrap();
    let k = choose|k: int| 0 <= k < v.len() && v[k] == c;
    assert(row_exists(repos, v[k]));
}

/// The repository a sidebar row belongs to.
pub open spec fn row_repo(c: SidebarCursor) -> usize {
    match c {
        SidebarCursor::Repo(r) => r,
        SidebarCursor::Worktree { repo, .. } => repo,
    }
}

proof fn lemma_visible_distinct(repos: Seq<Repo>, expanded: Map<Seq<char>, bool>, n: nat)
    requires
        n <= repos.len(),
        counts_fit(repos),
    ensures
        forall|i: int| 0 <= i < visible_upto(repos, expanded, n).len() ==> row_repo(#[trigger] visible_upto(repos, expanded, n)[i]) < n,
        forall|i: int, j: int|
            0 <= i < j < visible_upto(repos, expanded, n).len() ==> #[trigger] visible_upto(repos, expanded, n)[i]
                != #[trigger] visible_upto(repos, expanded, n)[j],
    decreases n,
{
    if n > 0 {
        lemma_visible_distinct(repos, expanded, (n - 1) as nat);
        let r = (n - 1) as usize;
        let old = visible_upto(repos, expanded, (n - 1) as nat);
        let prev = old.push(SidebarCursor::Repo(r));
        let k = repos[n - 1].worktrees@.len();
        let v = visible_upto(repos, expanded, n);
        assert(repos.len() <= usize::MAX);
        assert(k <= usize::MAX);
        assert forall|i: int| 0 <= i < v.len() implies row_repo(#[trigger] v[i]) < n by {
            if i < old.len() {
                assert(v[i] == old[i]);
            }
        }
        assert forall|i: int, j: int| 0 <= i < j < v.len() implies #[trigger] v[i] != #[trigger] v[j] by {
            if j < old.len() {
                assert(v[i] == old[i] && v[j] == old[j]);
            } else if i < old.len() {
                assert(v[i] == old[i]);
                assert(row_repo(v[j]) == r);
            } else if i == old.len() {
                assert(v[i] == SidebarCursor::Repo(r));
                assert(v[j] == worktree_rows(r, k)[j - old.len() - 1]);
            } else {
                assert(v[i] == worktree_rows(r, k)[i - old.len() - 1]);
                assert(v[j] == worktree_rows(r, k)[j - old.len() - 1]);
            }
        }
    }
}

proof fn lemma_first_pos_at(v: Seq<SidebarCursor>, c: SidebarCursor, i: int, p: int)
    requires
        0 <= i <= p < v.len(),
        v[p] == c,
        forall|j: int| i <= j < p ==> v[j] != c,
    ensures
        first_pos_from(v, c, i) == Some(p),
    decreases p - i,
{
    if i < p {
        lemma_first_pos_at(v, c, i + 1, p);
    }
}

/// Moving the cursor goes one visible row: from row `p`, up to row `p - 1`
/// (staying on the top row) and down to row `p + 1` (staying on the
/// bottom row); and going down and then up from any row but the bottom
/// one comes back to it.
pub proof fn law_cursor_moves_one_row(repos: Seq<Repo>, expanded: Map<Seq<char>, bool>, p: int)
    requires
        counts_fit(repos),
        0 <= p < spec_visible(repos, expanded).len(),
    ensures
        spec_moved_cursor(spec_visible(repos, expanded), Some(spec_visible(repos, expanded)[p]), Direction::Up) == Some(
            spec_visible(repos, expanded)[if p > 0 { p - 1 } else { 0 }],
        ),
        spec_moved_cursor(spec_visible(repos, expanded), Some(spec_visible(repos, expanded)[p]), Direction::Down) == Some(
            spec_visible(repos, expanded)[if p + 1 < spec_visible(repos, expanded).len() { p + 1 } else { p }],
        ),
        p + 1 < spec_visible(repos, expanded).len() ==> spec_moved_cursor(
            spec_visible(repos, expanded),
            spec_moved_cursor(spec_visible(repos, expanded), Some(spec_visible(repos, expanded)[p]), Direction::Down),
            Direction::Up,
        ) == Some(spec_visible(repos, expanded)[p]),
{
    let v = spec_visible(repos, expanded);
    lemma_visible_distinct(repos, expanded, repos.len());
    assert forall|q: int| 0 <= q < v.len() implies first_pos_from(v, #[trigger] v[q], 0) == Some(q) by {
        assert forall|j: int| 0 <= j < q implies v[j] != v[q] by {
            assert(v[j] != v[q]);
        }
        lemma_first_pos_at(v, v[q], 0, q);
    }
    if p + 1 < v.len() {
        assert(first_pos_from(v, v[p + 1], 0) == Some(p + 1));
    }
    assert(first_pos_from(v, v[p], 0) == Some(p));
}

proof fn lemma_first_pos_bound(v: Seq<SidebarCursor>, c: SidebarCursor, i: int)
    requires
        0 <= i,
    ensures
        first_pos_from(v, c, i) matches Some(p) ==> i <= p < v.len(),
    decreases v.len() - i,
{
    if i < v.len() && v[i] != c {
        lemma_first_pos_bound(v, c, i + 1);
    }
}

/// The first position of `c` in `v` at or after `i`.
pub open spec fn first_pos_from(v: Seq<SidebarCursor>, c: SidebarCursor, i: int) -> Option<int>
    decreases v.len() - i,
{
    if i < 0 || i >= v.len() {
        None
    } else if v[i] == c {
        Some(i)
    } else {
        first_pos_from(v, c, i + 1)
    }
}

/// Where the cursor goes when moved in `dir` over the rows `v`: from the
/// first occurrence of the current row (the top when it is not shown)
/// one step, stopping at either end; onto the top row when there was no
/// cursor; nowhere when there are no rows.
pub open spec fn spec_moved_cursor(v: Seq<SidebarCursor>, cur: Option<SidebarCursor>, dir: Direction) -> Option<SidebarCursor> {
    if v.len() == 0 {
        cur
    } else {
        match cur {
            None => Some(v[0]),
            Some(c) => {
                let pos = match first_pos_from(v, c, 0) {
                    Some(p) => p,
                    None => 0,
                };
                let np = match dir {
                    Direction::Up => if pos == 0 {
                        0
                    } else {
                        pos - 1
                    },
                    Direction::Down => if pos + 1 < v.len() {
                        pos + 1
                    } else {
                        v.len() - 1
                    },
                };
                Some(v[np])
            },
        }
    }
}

/// Everything grove keeps while running.  `T` is the terminal handle.
pub struct AppState<T> {
    pub config: Config,
    pub config_path: String,
    pub repos: Vec<Repo>,
    pub ui: UiState,
    pub terminals: WorktreeMap<WorktreeTerminals<T>>,
    pub diffs: WorktreeMap<DiffState>,
    pub main_views: WorktreeMap<MainView>,
    pub theme: Theme,
    pub theme_name: ThemeName,
    pub should_quit: bool,
    pub activity: ActivityState,
    /// A GitHub token was found.
    pub github_authenticated: bool,
    /// Some configured repository has a GitHub `origin`.
    pub has_github_repo: bool,
    /// Why the configuration file could not be used, when it could not.
    pub config_error: Option<String>,
}

/// `post` is `pre` with only the sidebar cursor changed, to `cursor`.
pub open spec fn only_cursor_changed<T>(pre: AppState<T>, post: AppState<T>, cursor: Option<SidebarCursor>) -> bool {
    &&& post.ui.cursor == cursor
    &&& post.ui.expanded@ == pre.ui.expanded@
    &&& post.ui.modal == pre.ui.modal
    &&& post.ui.focus == pre.ui.focus
    &&& post.ui.help_scroll == pre.ui.help_scroll
    &&& same_outside_ui(pre, post)
}

/// `post` is `pre` with only the expand/collapse flags changed, to `flags`.
pub open spec fn only_expanded_changed<T>(pre: AppState<T>, post: AppState<T>, flags: Map<Seq<char>, bool>) -> bool {
    &&& post.ui.expanded@ == flags
    &&& post.ui.cursor == pre.ui.cursor
    &&& post.ui.modal == pre.ui.modal
    &&& post.ui.focus == pre.ui.focus
    &&& post.ui.help_scroll == pre.ui.help_scroll
    &&& same_outside_ui(pre, post)
}

/// Work the binary does for a message, then reports back.
pub enum Effect {
    /// Clear the pending bells of this worktree's terminals.
    ClearBells(WorktreeId),
    /// List the directories that complete this path; hand them to
    /// `set_completions`.
    ListCompletions(String),
    /// List the branches of the repository; hand them to
    /// `open_new_worktree_with`.
    ListBranches { repo_idx: usize, repo_root: String },
    /// Find whether `branch` is merged into `base`; hand the answer to
    /// `open_confirm_remove_worktree_with`.
    CheckMerged { id: WorktreeId, repo_root: String, branch: String, base: String },
    /// Resolve `raw` to a repository and add it (`check_repo_name`,
    /// `config_with_repo`, save, `commit_add_repo`); on failure,
    /// `reopen_add_repo` with the message.
    AddRepo { modal: AddRepoModal, raw: String },
    /// Save `config`, then `commit_remove_repo(idx, ..)`; log a failure.
    RemoveRepo { idx: usize, config: Config },
    /// Create the worktree; then `finish_create_worktree`, or on failure
    /// `reopen_new_worktree` with the message.
    CreateWorktree { dialog: NewWorktreeModal, request: CreateRequest },
    /// Run `remove`, re-list the repository and `apply_worktree_removed`,
    /// then delete the branch if asked; log failures.
    RemoveWorktree { id: WorktreeId, repo_root: String, remove: GitCommand, delete: Option<BranchDeletion> },
    /// Add the selected new candidates in order; on a failure stop and
    /// `reopen_discovered` with the message.
    AddDiscovered(DiscoveredReposModal),
    /// Save the configuration; log a failure.
    SaveConfig,
    /// Read the tail of the log; hand it to `open_log_viewer_with`.
    ReadLog,
    /// Canonicalise the found paths and the configured ones; hand them to
    /// `apply_scan_results`.
    ResolveScan(Vec<String>),
    /// Write this warning to the log.
    Warn(String),
}

/// Only the fields marked `true` may differ between `pre` and `post`.
pub open spec fn frame<T>(pre: AppState<T>, post: AppState<T>, repos: bool, ui: bool, terminals: bool, diffs: bool, views: bool) -> bool {
    &&& post.config == pre.config
    &&& post.config_path == pre.config_path
    &&& post.theme == pre.theme
    &&& post.theme_name == pre.theme_name
    &&& post.should_quit == pre.should_quit
    &&& post.activity == pre.activity
    &&& post.github_authenticated == pre.github_authenticated
    &&& post.has_github_repo == pre.has_github_repo
    &&& post.config_error == pre.config_error
    &&& !repos ==> post.repos == pre.repos
    &&& !ui ==> post.ui == pre.ui
    &&& !terminals ==> post.terminals == pre.terminals
    &&& !diffs ==> post.diffs == pre.diffs
    &&& !views ==> post.main_views == pre.main_views
}

/// The worktree whose content the main pane shows: the one under the
/// cursor, when the cursor is on a worktree that exists.
pub open spec fn spec_active_id<T>(s: AppState<T>) -> Option<WorktreeId> {
    match s.ui.cursor {
        Some(SidebarCursor::Worktree { repo, worktree }) => if repo < s.repos@.len() && worktree
            < s.repos@[repo as int].worktrees@.len() {
            Some((repo, worktree))
        } else {
            None
        },
        _ => None,
    }
}

/// The active worktree's terminals went through `rel`, when it has any;
/// nothing else changed.
pub open spec fn terminals_op_post<T>(pre: AppState<T>, post: AppState<T>, rel: spec_fn(WorktreeTerminals<T>, WorktreeTerminals<T>) -> bool) -> bool {
    match spec_active_id(pre) {
        Some(id) => if pre.terminals@.contains_key(id) {
            &&& post.terminals@ == pre.terminals@.insert(id, post.terminals@[id])
            &&& rel(pre.terminals@[id], post.terminals@[id])
            &&& frame(pre, post, false, false, true, false, false)
        } else {
            post == pre
        },
        None => post == pre,
    }
}

/// The active worktree's diff view went through `rel`, when it has one;
/// nothing else changed.
pub open spec fn diff_op_post<T>(pre: AppState<T>, post: AppState<T>, rel: spec_fn(DiffState, DiffState) -> bool) -> bool {
    match spec_active_id(pre) {
        Some(id) => if pre.diffs@.contains_key(id) {
            &&& post.diffs@ == pre.diffs@.insert(id, post.diffs@[id])
            &&& rel(pre.diffs@[id], post.diffs@[id])
            &&& frame(pre, post, false, false, false, true, false)
        } else {
            post == pre
        },
        None => post == pre,
    }
}

/// The scroll of the active worktree's terminals, moved by `delta`, fits
/// an `i32` (the offset is kept as one while it moves).
pub open spec fn scroll_fits<T>(s: AppState<T>, delta: int) -> bool {
    match spec_active_id(s) {
        Some(id) => s.terminals@.contains_key(id) ==> s.terminals@[id].scroll_offset + delta <= i32::MAX,
        None => true,
    }
}

pub open spec fn flip_mode(m: DiffMode) -> DiffMode {
    match m {
        DiffMode::Local => DiffMode::Branch,
        DiffMode::Branch => DiffMode::Local,
    }
}

pub open spec fn flip_focus(f: DiffFocus) -> DiffFocus {
    match f {
        DiffFocus::List => DiffFocus::Content,
        DiffFocus::Content => DiffFocus::List,
    }
}

pub open spec fn flip_view(v: MainView) -> MainView {
    match v {
        MainView::Terminal => MainView::Diff,
        MainView::Diff => MainView::Terminal,
    }
}

/// The file cursor moved by `delta` and kept on a file; the content
/// scrolled back to the top.  An empty list stays as it is.
pub open spec fn diff_cursor_post(a: DiffState, b: DiffState, delta: int) -> bool {
    if a.files@.len() == 0 {
        b == a
    } else {
        let want = a.cursor + delta;
        &&& b.cursor == if want < 0 {
            0
        } else if want > a.files@.len() - 1 {
            a.files@.len() - 1
        } else {
            want
        }
        &&& b.scroll == 0
        &&& b.files == a.files
        &&& b.diff_focus == a.diff_focus
        &&& b.mode == a.mode
    }
}

pub open spec fn diff_focus_post(a: DiffState, b: DiffState) -> bool {
    &&& b.diff_focus == flip_focus(a.diff_focus)
    &&& b.files == a.files
    &&& b.cursor == a.cursor
    &&& b.scroll == a.scroll
    &&& b.mode == a.mode
}

/// Content scroll one line down (wrapping past `u16::MAX` to 0, as the
/// offset is cut to 16 bits) or one line up (stopping at 0).
pub open spec fn diff_scroll_post(a: DiffState, b: DiffState, down: bool) -> bool {
    &&& b.scroll == if down {
        (a.scroll + 1) % 65536
    } else if a.scroll == 0 {
        0
    } else {
        a.scroll - 1
    }
    &&& b.files == a.files
    &&& b.cursor == a.cursor
    &&& b.diff_focus == a.diff_focus
    &&& b.mode == a.mode
}

/// Everything but `ui` is unchanged.
pub open spec fn same_outside_ui<T>(pre: AppState<T>, post: AppState<T>) -> bool {
    &&& post.config == pre.config
    &&& post.config_path == pre.config_path
    &&& post.repos == pre.repos
    &&& post.terminals == pre.terminals
    &&& post.diffs == pre.diffs
    &&& post.main_views == pre.main_views
    &&& post.theme == pre.theme
    &&& post.theme_name == pre.theme_name
    &&& post.should_quit == pre.should_quit
    &&& post.activity == pre.activity
    &&& post.github_authenticated == pre.github_authenticated
    &&& post.has_github_repo == pre.has_github_repo
    &&& post.config_error == pre.config_error
}

pub open spec fn expand_post<T>(pre: AppState<T>, post: AppState<T>) -> bool {
    &&& (match pre.ui.cursor {
            Some(SidebarCursor::Repo(idx)) => {
                let path = pre.repos@[idx as int].root_path@;
                if spec_is_expanded(pre.ui.expanded@, path) {
                    only_cursor_changed(pre, post,
                        if pre.repos@[idx as int].worktrees@.len() > 0 {
                            Some(SidebarCursor::Worktree { repo: idx, worktree: 0 })
                        } else {
                            pre.ui.cursor
                        })
                } else {
                    only_expanded_changed(pre, post, pre.ui.expanded@.insert(path, true))
                }
            },
            _ => post == pre,
        })
}

pub open spec fn collapse_post<T>(pre: AppState<T>, post: AppState<T>) -> bool {
    &&& (match pre.ui.cursor {
            Some(SidebarCursor::Worktree { repo, .. }) => only_cursor_changed(
                pre,
                post,
                Some(SidebarCursor::Repo(repo)),
            ),
            Some(SidebarCursor::Repo(idx)) => {
                let path = pre.repos@[idx as int].root_path@;
                if spec_is_expanded(pre.ui.expanded@, path) {
                    only_expanded_changed(pre, post, pre.ui.expanded@.insert(path, false))
                } else {
                    post == pre
                }
            },
            None => post == pre,
        })
}

pub open spec fn activate_post<T>(pre: AppState<T>, post: AppState<T>, eff: Option<Effect>) -> bool {
    &&& (match pre.ui.cursor {
            Some(SidebarCursor::Worktree { repo, worktree }) => post == pre && eff == if pre.terminals@.contains_key((repo, worktree)) {
                Some(Effect::ClearBells((repo, worktree)))
            } else {
                None
            },
            Some(SidebarCursor::Repo(idx)) => {
                let path = pre.repos@[idx as int].root_path@;
                &&& only_expanded_changed(
                    pre,
                    post,
                    pre.ui.expanded@.insert(path, !spec_is_expanded(pre.ui.expanded@, path)),
                )
                &&& eff.is_none()
            },
            None => post == pre && eff.is_none(),
        })
}

pub open spec fn close_terminal_post<T>(pre: AppState<T>, post: AppState<T>) -> bool {
    &&& (match spec_active_id(pre) {
            None => post == pre,
            Some(id) => if pre.terminals@.contains_key(id) {
                &&& exists|ts: WorktreeTerminals<T>, last: bool| {
                    &&& #[trigger] crate::terminals::close_active_post(pre.terminals@[id], ts, last)
                    &&& if last {
                        &&& post.terminals@ == pre.terminals@.remove(id)
                        &&& post.ui.focus == FocusZone::Sidebar
                    } else {
                        &&& post.terminals@ == pre.terminals@.insert(id, ts)
                        &&& post.ui.focus == pre.ui.focus
                    }
                }
                &&& post.ui.cursor == pre.ui.cursor
                &&& post.ui.expanded == pre.ui.expanded
                &&& post.ui.modal == pre.ui.modal
                &&& post.ui.help_scroll == pre.ui.help_scroll
                &&& frame(pre, post, false, true, true, false, false)
            } else {
                &&& post.terminals == pre.terminals
                &&& post.ui.focus == FocusZone::Sidebar
                &&& post.ui.cursor == pre.ui.cursor
                &&& post.ui.expanded == pre.ui.expanded
                &&& post.ui.modal == pre.ui.modal
                &&& post.ui.help_scroll == pre.ui.help_scroll
                &&& frame(pre, post, false, true, false, false, false)
            },
        })
}

pub open spec fn toggle_diff_view_post<T>(pre: AppState<T>, post: AppState<T>) -> bool {
    &&& (match spec_active_id(pre) {
            None => post == pre,
            Some(id) => {
                &&& post.main_views@ == pre.main_views@.insert(
                    id,
                    flip_view(if pre.main_views@.contains_key(id) {
                        pre.main_views@[id]
                    } else {
                        MainView::Terminal
                    }),
                )
                &&& frame(pre, post, false, false, false, false, true)
            },
        })
}

pub open spec fn toggle_diff_mode_post<T>(pre: AppState<T>, post: AppState<T>) -> bool {
    &&& (match spec_active_id(pre) {
            None => post == pre,
            Some(id) => {
                let d = post.diffs@[id];
                &&& post.diffs@ == pre.diffs@.insert(id, d)
                &&& d.mode == flip_mode(if pre.diffs@.contains_key(id) {
                    pre.diffs@[id].mode
                } else {
                    DiffMode::Local
                })
                &&& d.cursor == 0
                &&& d.scroll == 0
                &&& d.files@.len() == 0
                &&& d.diff_focus == if pre.diffs@.contains_key(id) {
                    pre.diffs@[id].diff_focus
                } else {
                    DiffFocus::List
                }
                &&& frame(pre, post, false, false, false, true, false)
            },
        })
}

impl<T> AppState<T> {
    /// The sidebar rows, top to bottom.
    pub fn visible_items(&self) -> (v: Vec<SidebarCursor>)
        ensures
            v@ == spec_visible(self.repos@, self.ui.expanded@),
    {
        let mut items: Vec<SidebarCursor> = Vec::new();
        let mut i: usize = 0;
        while i < self.repos.len()
            invariant
                i <= self.repos@.len(),
                items@ == visible_upto(self.repos@, self.ui.expanded@, i as nat),
            decreases self.repos@.len() - i,
        {
            items.push(SidebarCursor::Repo(i));
            let ghost base = items@;
            if self.ui.is_expanded(self.repos[i].root_path.as_str()) {
                let n = self.repos[i].worktrees.len();
                let mut j: usize = 0;
                while j < n
                    invariant
                        j <= n,
                        n == self.repos@[i as int].worktrees@.len(),
                        items@ == base + worktree_rows(i, j as nat),
                    decreases n - j,
                {
                    items.push(SidebarCursor::Worktree { repo: i, worktree: j });
                    j += 1;
                    assert(items@ =~= base + worktree_rows(i, j as nat));
                }
            } else {
                assert(items@ =~= base);
            }
            i += 1;
        }
        items
    }

    /// The cursor names an existing repository (on a repository row, or
    /// on one of its worktrees' rows).
    pub open spec fn cursor_ok(&self) -> bool {
        match self.ui.cursor {
            Some(SidebarCursor::Repo(r)) => r < self.repos@.len(),
            Some(SidebarCursor::Worktree { repo, .. }) => repo < self.repos@.len(),
            None => true,
        }
    }

    /// On a repository row: descend to its first worktree when it is
    /// expanded (and has one), expand it otherwise.
    pub fn expand_or_descend(&mut self)
        requires
            old(self).cursor_ok(),
        ensures
            expand_post(*old(self), *final(self)),
    {
        let idx = match self.ui.cursor {
            Some(SidebarCursor::Repo(i)) => i,
            _ => return,
        };
        let path = self.repos[idx].root_path.clone();
        if self.ui.is_expanded(path.as_str()) {
            if self.repos[idx].worktrees.len() > 0 {
                self.ui.cursor = Some(SidebarCursor::Worktree { repo: idx, worktree: 0 });
            }
        } else {
            self.ui.expanded.insert(path, true);
        }
    }

    /// On a worktree row: go up to its repository.  On an expanded
    /// repository row: collapse it.
    pub fn collapse_or_ascend(&mut self)
        requires
            old(self).cursor_ok(),
        ensures
            collapse_post(*old(self), *final(self)),
    {
        match self.ui.cursor {
            Some(SidebarCursor::Worktree { repo, .. }) => {
                self.ui.cursor = Some(SidebarCursor::Repo(repo));
            },
            Some(SidebarCursor::Repo(idx)) => {
                let path = self.repos[idx].root_path.clone();
                if self.ui.is_expanded(path.as_str()) {
                    self.ui.expanded.insert(path, false);
                }
            },
            None => {},
        }
    }

    /// Enter on a repository row toggles it; on a worktree row it
    /// acknowledges the bells of that worktree's terminals, which the
    /// returned effect asks the caller to clear.
    pub fn activate(&mut self) -> (eff: Option<Effect>)
        requires
            old(self).cursor_ok(),
        ensures
            activate_post(*old(self), *final(self), eff),
    {
        match self.ui.cursor {
            Some(SidebarCursor::Worktree { repo, worktree }) => {
                if self.terminals.contains_key((repo, worktree)) {
                    Some(Effect::ClearBells((repo, worktree)))
                } else {
                    None
                }
            },
            Some(SidebarCursor::Repo(idx)) => {
                let path = self.repos[idx].root_path.clone();
                let expanded = self.ui.is_expanded(path.as_str());
                self.ui.expanded.insert(path, !expanded);
                None
            },
            None => None,
        }
    }

    /// The worktree the main pane shows, if the cursor is on one.
    pub fn active_worktree_id(&self) -> (r: Option<WorktreeId>)
        ensures
            r == spec_active_id(*self),
    {
        match self.ui.cursor {
            Some(SidebarCursor::Worktree { repo, worktree }) => {
                if repo < self.repos.len() && worktree < self.repos[repo].worktrees.len() {
                    Some((repo, worktree))
                } else {
                    None
                }
            },
            _ => None,
        }
    }

    /// Next terminal tab of the active worktree.
    pub fn next_tab(&mut self)
        ensures
            terminals_op_post(*old(self), *final(self), |a, b| crate::terminals::next_tab_post(a, b)),
    {
        if let Some(id) = self.active_worktree_id() {
            if self.terminals.contains_key(id) {
                let mut ts = self.terminals.remove(id).unwrap();
                ts.next_tab();
                self.terminals.insert(id, ts);
                proof {
                    assert(self.terminals@ =~= old(self).terminals@.insert(id, self.terminals@[id]));
                }
            }
        }
    }

    /// Previous terminal tab of the active worktree.
    pub fn prev_tab(&mut self)
        ensures
            terminals_op_post(*old(self), *final(self), |a, b| crate::terminals::prev_tab_post(a, b)),
    {
        if let Some(id) = self.active_worktree_id() {
            if self.terminals.contains_key(id) {
                let mut ts = self.terminals.remove(id).unwrap();
                ts.prev_tab();
                self.terminals.insert(id, ts);
                proof {
                    assert(self.terminals@ =~= old(self).terminals@.insert(id, self.terminals@[id]));
                }
            }
        }
    }

    /// Toggle scrollback mode of the active worktree's terminals.
    pub fn toggle_scrollback(&mut self)
        ensures
            terminals_op_post(*old(self), *final(self), |a, b| crate::terminals::toggle_scrollback_post(a, b)),
    {
        if let Some(id) = self.active_worktree_id() {
            if self.terminals.contains_key(id) {
                let mut ts = self.terminals.remove(id).unwrap();
                ts.toggle_scrollback();
                self.terminals.insert(id, ts);
                proof {
                    assert(self.terminals@ =~= old(self).terminals@.insert(id, self.terminals@[id]));
                }
            }
        }
    }

    /// Scroll the active worktree's terminals by `delta` lines.
    pub fn scroll_terminal(&mut self, delta: i32)
        requires
            scroll_fits(*old(self), delta as int),
        ensures
            terminals_op_post(*old(self), *final(self), |a, b| crate::terminals::scroll_post(a, b, delta as int)),
    {
        if let Some(id) = self.active_worktree_id() {
            if self.terminals.contains_key(id) {
                let mut ts = self.terminals.remove(id).unwrap();
                ts.scroll(delta);
                self.terminals.insert(id, ts);
                proof {
                    assert(self.terminals@ =~= old(self).terminals@.insert(id, self.terminals@[id]));
                }
            }
        }
    }

    /// Jump the active worktree's terminals to the top (`to_top`) or the
    /// bottom of their history.
    pub fn scroll_terminal_to(&mut self, to_top: bool)
        ensures
            terminals_op_post(
                *old(self),
                *final(self),
                |a, b| crate::terminals::only_offset_set(a, b, if to_top { crate::terminals::SCROLL_HOME_OFFSET } else { 0 }),
            ),
    {
        if let Some(id) = self.active_worktree_id() {
            if self.terminals.contains_key(id) {
                let mut ts = self.terminals.remove(id).unwrap();
                if to_top {
                    ts.scroll_home();
                } else {
                    ts.scroll_end();
                }
                self.terminals.insert(id, ts);
                proof {
                    assert(self.terminals@ =~= old(self).terminals@.insert(id, self.terminals@[id]));
                }
            }
        }
    }

    /// Close the active tab of the active worktree; when none is left the
    /// worktree's entry goes and the focus returns to the sidebar.
    pub fn close_active_terminal(&mut self)
        ensures
            close_terminal_post(*old(self), *final(self)),
    {
        if let Some(id) = self.active_worktree_id() {
            if self.terminals.contains_key(id) {
                let mut ts = self.terminals.remove(id).unwrap();
                let last = ts.close_active();
                if last {
                    self.ui.focus = FocusZone::Sidebar;
                    assert(self.terminals@ =~= old(self).terminals@.remove(id));
                } else {
                    let ghost tv = ts;
                    self.terminals.insert(id, ts);
                    assert(self.terminals@ =~= old(self).terminals@.insert(id, tv));
                }
            } else {
                self.ui.focus = FocusZone::Sidebar;
            }
        }
    }

    /// Switch the active worktree's main pane between terminal and diff.
    pub fn toggle_diff_view(&mut self)
        ensures
            toggle_diff_view_post(*old(self), *final(self)),
    {
        if let Some(id) = self.active_worktree_id() {
            let cur = match self.main_views.get(id) {
                Some(v) => *v,
                None => MainView::Terminal,
            };
            let next = match cur {
                MainView::Terminal => MainView::Diff,
                MainView::Diff => MainView::Terminal,
            };
            self.main_views.insert(id, next);
        }
    }

    /// Switch the active worktree's diff between local and branch, back
    /// to the first file at the top, with the files to be recomputed.
    pub fn toggle_diff_mode(&mut self)
        ensures
            toggle_diff_mode_post(*old(self), *final(self)),
    {
        if let Some(id) = self.active_worktree_id() {
            let mut d = if self.diffs.contains_key(id) {
                self.diffs.remove(id).unwrap()
            } else {
                DiffState::default()
            };
            d.mode = match d.mode {
                DiffMode::Local => DiffMode::Branch,
                DiffMode::Branch => DiffMode::Local,
            };
            d.cursor = 0;
            d.scroll = 0;
            d.files = Vec::new();
            self.diffs.insert(id, d);
            assert(self.diffs@ =~= old(self).diffs@.insert(id, self.diffs@[id]));
        }
    }

    /// The diff mode of the active worktree (local when it has none).
    pub fn active_diff_mode(&self) -> (m: DiffMode)
        ensures
            m == match spec_active_id(*self) {
                Some(id) => if self.diffs@.contains_key(id) {
                    self.diffs@[id].mode
                } else {
                    DiffMode::Local
                },
                None => DiffMode::Local,
            },
    {
        match self.active_worktree_id() {
            Some(id) => match self.diffs.get(id) {
                Some(d) => d.mode,
                None => DiffMode::Local,
            },
            None => DiffMode::Local,
        }
    }

    /// Move the diff's file cursor by `delta`, clamped to the file list.
    pub fn move_diff_cursor(&mut self, delta: i32)
        ensures
            diff_op_post(*old(self), *final(self), |a, b| diff_cursor_post(a, b, delta as int)),
    {
        if let Some(id) = self.active_worktree_id() {
            if self.diffs.contains_key(id) {
                let mut d = self.diffs.remove(id).unwrap();
                if d.files.len() > 0 {
                    let last = d.files.len() - 1;
                    let want: i128 = d.cursor as i128 + delta as i128;
                    let c: usize = if want < 0 {
                        0
                    } else if want > last as i128 {
                        last
                    } else {
                        want as usize
                    };
                    d.cursor = c;
                    d.scroll = 0;
                }
                self.diffs.insert(id, d);
                proof {
                    assert(self.diffs@ =~= old(self).diffs@.insert(id, self.diffs@[id]));
                }
            }
        }
    }

    /// Switch the diff's keyboard focus between file list and content.
    pub fn toggle_diff_focus(&mut self)
        ensures
            diff_op_post(*old(self), *final(self), |a, b| diff_focus_post(a, b)),
    {
        if let Some(id) = self.active_worktree_id() {
            if self.diffs.contains_key(id) {
                let mut d = self.diffs.remove(id).unwrap();
                d.diff_focus = match d.diff_focus {
                    DiffFocus::List => DiffFocus::Content,
                    DiffFocus::Content => DiffFocus::List,
                };
                self.diffs.insert(id, d);
                proof {
                    assert(self.diffs@ =~= old(self).diffs@.insert(id, self.diffs@[id]));
                }
            }
        }
    }

    /// Scroll the diff content one line down (`down`) or up.
    pub fn scroll_diff(&mut self, down: bool)
        ensures
            diff_op_post(*old(self), *final(self), |a, b| diff_scroll_post(a, b, down)),
    {
        if let Some(id) = self.active_worktree_id() {
            if self.diffs.contains_key(id) {
                let mut d = self.diffs.remove(id).unwrap();
                d.scroll = if down {
                    if d.scroll == 65535 {
                        0
                    } else {
                        d.scroll + 1
                    }
                } else if d.scroll == 0 {
                    0
                } else {
                    d.scroll - 1
                };
                self.diffs.insert(id, d);
                proof {
                    assert(self.diffs@ =~= old(self).diffs@.insert(id, self.diffs@[id]));
                }
            }
        }
    }

    /// Store freshly computed diff files for `id`, keeping the file cursor
    /// where it was as far as the new list allows.
    pub fn set_diff(&mut self, id: WorktreeId, files: Vec<DiffFile>)
        ensures
            ({
                let d = final(self).diffs@[id];
                let old_cursor = if old(self).diffs@.contains_key(id) {
                    old(self).diffs@[id].cursor
                } else {
                    0
                };
                &&& final(self).diffs@ == old(self).diffs@.insert(id, d)
                &&& d.files@ == files@
                &&& d.cursor == if files@.len() == 0 {
                    0
                } else if old_cursor < files@.len() - 1 {
                    old_cursor as int
                } else {
                    files@.len() - 1
                }
                &&& old(self).diffs@.contains_key(id) ==> d.scroll == old(self).diffs@[id].scroll && d.mode
                    == old(self).diffs@[id].mode && d.diff_focus == old(self).diffs@[id].diff_focus
                &&& !old(self).diffs@.contains_key(id) ==> d.scroll == 0 && d.mode == DiffMode::Local
                    && d.diff_focus == DiffFocus::List
            }),
            frame(*old(self), *final(self), false, false, false, true, false),
    {
        let mut d = if self.diffs.contains_key(id) {
            self.diffs.remove(id).unwrap()
        } else {
            DiffState::default()
        };
        let top = if files.len() == 0 {
            0
        } else {
            files.len() - 1
        };
        let keep = if d.cursor < top {
            d.cursor
        } else {
            top
        };
        d.files = files;
        d.cursor = keep;
        self.diffs.insert(id, d);
    }

    /// Move the sidebar cursor one row up or down over the visible rows.
    pub fn move_cursor(&mut self, dir: Direction)
        ensures
            old(self).cursor_ok() ==> final(self).cursor_ok(),
            only_cursor_changed(
                *old(self),
                *final(self),
                spec_moved_cursor(spec_visible(old(self).repos@, old(self).ui.expanded@), old(self).ui.cursor, dir),
            ),
    {
        let visible = self.visible_items();
        if visible.len() == 0 {
            return;
        }
        proof {
            lemma_counts_fit(self);
            law_cursor_lands_on_visible_row(self.repos@, self.ui.expanded@, self.ui.cursor, dir);
        }
        let current = match self.ui.cursor {
            Some(c) => c,
            None => {
                self.ui.cursor = Some(visible[0]);
                return;
            },
        };
        let mut pos: usize = 0;
        let mut k: usize = 0;
        let mut found = false;
        while !found && k < visible.len()
            invariant
                k <= visible@.len(),
                found ==> pos < visible@.len() && first_pos_from(visible@, current, 0) == Some(pos as int),
                !found ==> pos == 0 && first_pos_from(visible@, current, 0) == first_pos_from(visible@, current, k as int),
            decreases visible@.len() - k + (if found { 0int } else { 1int }),
        {
            if visible[k] == current {
                pos = k;
                found = true;
            } else {
                k += 1;
            }
        }
        let new_pos = match dir {
            Direction::Up => if pos == 0 {
                0
            } else {
                pos - 1
            },
            Direction::Down => if pos + 1 < visible.len() {
                pos + 1
            } else {
                visible.len() - 1
            },
        };
        self.ui.cursor = Some(visible[new_pos]);
    }
}

} // verus!
