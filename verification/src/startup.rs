//! Where grove keeps its files, and the state it starts from.

use vstd::prelude::*;

use crate::activity::ActivityState;
use crate::app::{AppState, SidebarCursor, UiState};
use crate::config::{Config, RepoConfig};
use crate::git::{join_path, path_join};
use crate::idmap::WorktreeMap;
use crate::model::{HeadRef, Repo, Worktree};
use crate::text::string_of;

verus! {

/// The configuration, state and log files.
#[derive(Debug)]
pub struct AppPaths {
    pub config_file: String,
    pub state_file: String,
    pub log_file: String,
}

/// The platform's configuration, data and cache directories for grove
/// (`directories::ProjectDirs::from("", "", "grove")`), or `None` when no
/// home directory can be found.  They depend on the platform and the
/// environment, so nothing is said of them.
#[verifier::external_body]
fn project_dirs() -> Option<(String, String, String)> {
    directories::ProjectDirs::from("", "", "grove").map(
        |d|
            (
                d.config_dir().to_string_lossy().into_owned(),
                d.data_dir().to_string_lossy().into_owned(),
                d.cache_dir().to_string_lossy().into_owned(),
            ),
    )
}

pub open spec fn config_name() -> Seq<char> {
    seq!['c', 'o', 'n', 'f', 'i', 'g', '.', 't', 'o', 'm', 'l']
}

pub open spec fn state_name() -> Seq<char> {
    seq!['s', 't', 'a', 't', 'e', '.', 't', 'o', 'm', 'l']
}

pub open spec fn log_name() -> Seq<char> {
    seq!['g', 'r', 'o', 'v', 'e', '.', 'l', 'o', 'g']
}

pub open spec fn msg_no_home() -> Seq<char> {
    seq![
        'c', 'o', 'u', 'l', 'd', ' ', 'n', 'o', 't', ' ', 'd', 'e', 't', 'e', 'r', 'm', 'i', 'n', 'e', ' ', 'h', 'o', 'm', 'e',
        ' ', 'd', 'i', 'r', 'e', 'c', 't', 'o', 'r', 'y', ' ', 'f', 'o', 'r', ' ', 'a', 'p', 'p', ' ', 'd', 'a', 't', 'a',
    ]
}

impl AppPaths {
    /// `config.toml` in the configuration directory, `state.toml` in the
    /// data directory, `grove.log` in the cache directory.
    pub fn from_dirs(config_dir: &str, data_dir: &str, cache_dir: &str) -> (p: AppPaths)
        ensures
            p.config_file@ == path_join(config_dir@, config_name()),
            p.state_file@ == path_join(data_dir@, state_name()),
            p.log_file@ == path_join(cache_dir@, log_name()),
    {
        proof {
            reveal_strlit("config.toml");
            reveal_strlit("state.toml");
            reveal_strlit("grove.log");
            assert("config.toml"@ =~= config_name());
            assert("state.toml"@ =~= state_name());
            assert("grove.log"@ =~= log_name());
        }
        AppPaths {
            config_file: join_path(config_dir, "config.toml"),
            state_file: join_path(data_dir, "state.toml"),
            log_file: join_path(cache_dir, "grove.log"),
        }
    }

    /// The files under the platform's directories for grove; an error when
    /// there is no home directory.
    pub fn resolve() -> (r: Result<AppPaths, String>)
        ensures
            r matches Err(e) ==> e@ == msg_no_home(),
            r matches Ok(p) ==> exists|c: Seq<char>, d: Seq<char>, k: Seq<char>|
                p.config_file@ == path_join(c, config_name())
                    && p.state_file@ == path_join(d, state_name())
                    && #[trigger] p.log_file@ == path_join(k, log_name()),
    {
        match project_dirs() {
            Some((c, d, k)) => Ok(AppPaths::from_dirs(c.as_str(), d.as_str(), k.as_str())),
            None => {
                let e = string_of("could not determine home directory for app data");
                proof {
                    reveal_strlit("could not determine home directory for app data");
                    assert(e@ =~= msg_no_home());
                }
                Err(e)
            },
        }
    }
}

/// The log file, when the platform's directories can be found.
pub fn log_path() -> (r: Option<String>)
    ensures
        r matches Some(p) ==> exists|k: Seq<char>| #[trigger] path_join(k, log_name()) == p@,
{
    match AppPaths::resolve() {
        Ok(p) => Some(p.log_file),
        Err(_) => None,
    }
}

/// `str::lines`: pieces between `\n`, each without a trailing `\r`, and
/// no empty piece after a final `\n`.
pub open spec fn spec_lines(s: Seq<char>) -> Seq<Seq<char>> {
    let parts = crate::keys::split_on(s, '\n');
    let kept = if s.len() > 0 && s.last() == '\n' { parts.drop_last() } else if s.len() == 0 { Seq::empty() } else { parts };
    kept.map_values(|p: Seq<char>| if p.len() > 0 && p.last() == '\r' { p.drop_last() } else { p })
}

/// The lines of the tail of the log; the first is dropped when the tail
/// started in the middle of the file, as it is likely cut.
pub fn tail_lines(text: &str, started_mid: bool) -> (v: Vec<String>)
    ensures
        crate::view::string_views(v@) == if started_mid && spec_lines(text@).len() > 0 {
            spec_lines(text@).drop_first()
        } else {
            spec_lines(text@)
        },
{
    let chars = crate::text::chars_of(text);
    let parts = crate::keys::split_chars(&chars, '\n');
    let n = chars.len();
    let keep = if n > 0 && chars[n - 1] == '\n' {
        parts.len() - 1
    } else if n == 0 {
        0
    } else {
        parts.len()
    };
    proof {
        crate::keys::lemma_split_nonempty(text@, '\n');
    }
    let ghost kept = if text@.len() > 0 && text@.last() == '\n' {
        crate::keys::split_on(text@, '\n').drop_last()
    } else if text@.len() == 0 {
        Seq::empty()
    } else {
        crate::keys::split_on(text@, '\n')
    };
    let ghost want = spec_lines(text@);
    let start: usize = if started_mid && keep > 0 {
        1
    } else {
        0
    };
    let mut out: Vec<String> = Vec::new();
    let mut i: usize = start;
    while i < keep
        invariant
            start <= i <= keep <= parts@.len(),
            crate::keys::views(parts@) == crate::keys::split_on(text@, '\n'),
            kept.len() == keep,
            forall|j: int| 0 <= j < keep ==> kept[j] == crate::keys::views(parts@)[j],
            want == kept.map_values(|p: Seq<char>| if p.len() > 0 && p.last() == '\r' { p.drop_last() } else { p }),
            crate::view::string_views(out@) == want.subrange(start as int, i as int),
        decreases keep - i,
    {
        let p = &parts[i];
        let m = p.len();
        let end = if m > 0 && p[m - 1] == '\r' {
            m - 1
        } else {
            m
        };
        let line = crate::text::string_from_chars(p, 0, end);
        proof {
            assert(p@ == kept[i as int]);
            if m > 0 && p@[m - 1] == '\r' {
                assert(p@.subrange(0, end as int) =~= p@.drop_last());
            } else {
                assert(p@.subrange(0, end as int) =~= p@);
            }
        }
        assert(line@ == want[i as int]);
        let ghost before = crate::view::string_views(out@);
        out.push(line);
        assert(crate::view::string_views(out@) =~= before.push(want[i as int]));
        i += 1;
        assert(crate::view::string_views(out@) =~= want.subrange(start as int, i as int));
    }
    assert(want.subrange(start as int, keep as int) =~= if started_mid && want.len() > 0 {
        want.drop_first()
    } else {
        want
    });
    out
}

/// The repositories to start with: one per configured repository whose
/// worktrees could be listed (`listings[i]`, `None` when listing failed),
/// its base branch the configured one or else `default_base`.
pub open spec fn spec_load_repos(cfgs: Seq<RepoConfig>, default_base: String, listings: Seq<Option<Vec<Worktree>>>, n: nat) -> Seq<Repo>
    decreases n,
{
    if n == 0 {
        Seq::empty()
    } else {
        let prev = spec_load_repos(cfgs, default_base, listings, (n - 1) as nat);
        match listings[n - 1] {
            None => prev,
            Some(w) => prev.push(
                Repo {
                    name: cfgs[n - 1].name,
                    root_path: cfgs[n - 1].path,
                    base_branch: match cfgs[n - 1].base_branch {
                        Some(b) => b,
                        None => default_base,
                    },
                    worktrees: w,
                },
            ),
        }
    }
}

/// The repositories of `config` whose worktrees were listed.
pub fn load_repos(config: &Config, listings: Vec<Option<Vec<Worktree>>>) -> (repos: Vec<Repo>)
    requires
        listings@.len() == config.repos@.len(),
    ensures
        repos@ == spec_load_repos(config.repos@, config.general.default_base_branch, listings@, listings@.len()),
{
    let ghost orig = listings@;
    let mut listings = listings;
    let mut repos: Vec<Repo> = Vec::new();
    let mut i: usize = 0;
    while i < listings.len()
        invariant
            i <= listings@.len(),
            listings@.len() == orig.len(),
            orig.len() == config.repos@.len(),
            forall|j: int| i <= j < orig.len() ==> #[trigger] listings@[j] == orig[j],
            repos@ == spec_load_repos(config.repos@, config.general.default_base_branch, orig, i as nat),
        decreases orig.len() - i,
    {
        let mut taken: Option<Vec<Worktree>> = None;
        std::mem::swap(&mut taken, &mut listings[i]);
        match taken {
            Some(w) => {
                let cfg = &config.repos[i];
                let base_branch = match &cfg.base_branch {
                    Some(b) => b.clone(),
                    None => config.general.default_base_branch.clone(),
                };
                repos.push(Repo { name: cfg.name.clone(), root_path: cfg.path.clone(), base_branch, worktrees: w });
            },
            None => {},
        }
        i += 1;
    }
    repos
}

impl<T> AppState<T> {
    /// The state grove starts in: the given repositories (see
    /// `load_repos`), the cursor on the first one, nothing open, the
    /// configured theme, one fetch slot per repository.
    pub fn load(config: Config, config_path: String, repos: Vec<Repo>, has_github_repo: bool) -> (s: Self)
        ensures
            s.config == config,
            s.config_path == config_path,
            s.repos == repos,
            s.ui.cursor == if repos@.len() == 0 { None } else { Some(SidebarCursor::Repo(0)) },
            s.ui.expanded@ == Map::<Seq<char>, bool>::empty(),
            s.ui.modal.is_none(),
            s.ui.focus == crate::app::FocusZone::Sidebar,
            s.ui.help_scroll == 0,
            s.terminals@ == Map::<crate::idmap::WorktreeId, crate::terminals::WorktreeTerminals<T>>::empty(),
            s.diffs@ == Map::<crate::idmap::WorktreeId, crate::app::DiffState>::empty(),
            s.main_views@ == Map::<crate::idmap::WorktreeId, crate::app::MainView>::empty(),
            s.theme_name == config.theme.base,
            s.theme == crate::theme::spec_resolve(config.theme.base),
            !s.should_quit,
            s.activity@.0 == 0,
            s.activity@.1.len() == 0,
            s.activity@.2 == Seq::new(repos@.len(), |i: int| None::<u64>),
            !s.github_authenticated,
            s.has_github_repo == has_github_repo,
            s.config_error.is_none(),
    {
        let cursor = if repos.len() == 0 {
            None
        } else {
            Some(SidebarCursor::Repo(0))
        };
        let mut activity = ActivityState::new();
        activity.resize_repos(repos.len());
        assert(activity@.2 =~= Seq::new(repos@.len(), |i: int| None::<u64>));
        let mut ui = UiState::new();
        ui.cursor = cursor;
        let theme_name = config.theme.base;
        AppState {
            config,
            config_path,
            repos,
            ui,
            terminals: WorktreeMap::new(),
            diffs: WorktreeMap::new(),
            main_views: WorktreeMap::new(),
            theme: crate::theme::resolve(theme_name),
            theme_name,
            should_quit: false,
            activity,
            github_authenticated: false,
            has_github_repo,
            config_error: None,
        }
    }

    /// A state with no repository, for the given configuration path.
    pub fn empty_fixture(config_path: String) -> (s: Self)
        ensures
            s.config_path == config_path,
            crate::config::is_default_config(s.config),
            s.repos@.len() == 0,
            s.ui.cursor.is_none(),
            s.ui.modal.is_none(),
            s.ui.expanded@ == Map::<Seq<char>, bool>::empty(),
            s.activity@.2.len() == 0,
            !s.has_github_repo,
    {
        AppState::load(Config::default(), config_path, Vec::new(), false)
    }

    /// Two repositories for tests and demonstrations: `grove` with
    /// worktrees `main` (primary), `feat/sidebar` and `fix/deps`, and
    /// `dotfiles` with `main` (primary) and `wip/zsh`; cursor on `grove`.
    pub fn fixture() -> (s: Self)
        ensures
            crate::config::is_default_config(s.config),
            s.config_path@ == "/tmp/grove-fixture-config.toml"@,
            s.repos@.len() == 2,
            fixture_repo(s.repos@[0], "grove"@, "/Users/sebas/dev/grove"@, "main"@),
            s.repos@[0].worktrees@.len() == 3,
            fixture_worktree_is(s.repos@[0].worktrees@[0], "main"@, "/Users/sebas/dev/grove"@, true),
            fixture_worktree_is(s.repos@[0].worktrees@[1], "feat/sidebar"@, "/Users/sebas/dev/grove-feat-sidebar"@, false),
            fixture_worktree_is(s.repos@[0].worktrees@[2], "fix/deps"@, "/Users/sebas/dev/grove-fix-deps"@, false),
            fixture_repo(s.repos@[1], "dotfiles"@, "/Users/sebas/dotfiles"@, "main"@),
            s.repos@[1].worktrees@.len() == 2,
            fixture_worktree_is(s.repos@[1].worktrees@[0], "main"@, "/Users/sebas/dotfiles"@, true),
            fixture_worktree_is(s.repos@[1].worktrees@[1], "wip/zsh"@, "/Users/sebas/dotfiles-wip-zsh"@, false),
            s.theme_name == s.config.theme.base,
            !s.should_quit,
            !s.github_authenticated,
            !s.has_github_repo,
            s.config_error.is_none(),
            s.activity@.0 == 0,
            s.activity@.1.len() == 0,
            s.ui.help_scroll == 0,
            s.ui.cursor == Some(SidebarCursor::Repo(0)),
            s.ui.modal.is_none(),
            s.ui.expanded@ == Map::<Seq<char>, bool>::empty(),
            s.terminals@ == Map::<crate::idmap::WorktreeId, crate::terminals::WorktreeTerminals<T>>::empty(),
            s.diffs@ == Map::<crate::idmap::WorktreeId, crate::app::DiffState>::empty(),
            s.main_views@ == Map::<crate::idmap::WorktreeId, crate::app::MainView>::empty(),
            s.activity@.2.len() == 2,
            s.ui.focus == crate::app::FocusZone::Sidebar,
    {
        let mut grove: Vec<Worktree> = Vec::new();
        grove.push(fixture_worktree("main", "/Users/sebas/dev/grove", true));
        grove.push(fixture_worktree("feat/sidebar", "/Users/sebas/dev/grove-feat-sidebar", false));
        grove.push(fixture_worktree("fix/deps", "/Users/sebas/dev/grove-fix-deps", false));
        let mut dotfiles: Vec<Worktree> = Vec::new();
        dotfiles.push(fixture_worktree("main", "/Users/sebas/dotfiles", true));
        dotfiles.push(fixture_worktree("wip/zsh", "/Users/sebas/dotfiles-wip-zsh", false));
        let mut repos: Vec<Repo> = Vec::new();
        repos.push(
            Repo {
                name: string_of("grove"),
                root_path: string_of("/Users/sebas/dev/grove"),
                base_branch: string_of("main"),
                worktrees: grove,
            },
        );
        repos.push(
            Repo {
                name: string_of("dotfiles"),
                root_path: string_of("/Users/sebas/dotfiles"),
                base_branch: string_of("main"),
                worktrees: dotfiles,
            },
        );
        let s = AppState::load(Config::default(), string_of("/tmp/grove-fixture-config.toml"), repos, false);
        s
    }
}

/// A repository of the fixture: its name, root and base branch.
pub open spec fn fixture_repo(r: Repo, name: Seq<char>, root: Seq<char>, base: Seq<char>) -> bool {
    &&& r.name@ == name
    &&& r.root_path@ == root
    &&& r.base_branch@ == base
}

/// A worktree of the fixture: on `branch` at `path`, with no status or
/// pull request yet.
pub open spec fn fixture_worktree_is(w: Worktree, branch: Seq<char>, path: Seq<char>, is_primary: bool) -> bool {
    &&& w.head matches HeadRef::Branch(b) && b@ == branch
    &&& w.path@ == path
    &&& w.is_primary == is_primary
    &&& w.status.is_none()
    &&& w.pr.is_none()
}

fn fixture_worktree(branch: &str, path: &str, is_primary: bool) -> (w: Worktree)
    ensures
        fixture_worktree_is(w, branch@, path@, is_primary),
{
    Worktree { head: HeadRef::Branch(string_of(branch)), path: string_of(path), is_primary, status: None, pr: None }
}

} // verus!
