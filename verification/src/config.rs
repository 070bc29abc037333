//! User configuration: defaults and the tracked repositories.

use vstd::prelude::*;

use crate::text::string_of;
use crate::theme::ThemeName;

verus! {

#[derive(Debug, PartialEq, Eq)]
pub struct Config {
    pub general: General,
    pub theme: ThemeConfig,
    pub repos: Vec<RepoConfig>,
}

#[derive(Debug, Clone, Copy, PartialEq, Eq, Structural)]
pub struct ThemeConfig {
    pub base: ThemeName,
}

#[derive(Debug, PartialEq, Eq)]
pub struct General {
    pub default_base_branch: String,
    /// When set, new worktrees go to `<worktree_root>/<repo>/<branch>`;
    /// otherwise next to the repository.
    pub worktree_root: Option<String>,
    /// Seconds between background fetches of each repository; 0 turns the
    /// scheduler off.
    pub fetch_cadence_secs: u64,
}

#[derive(Debug, PartialEq, Eq)]
pub struct RepoConfig {
    pub name: String,
    pub path: String,
    pub base_branch: Option<String>,
    /// Per-repository override of `general.worktree_root`.
    pub worktree_root: Option<String>,
}

pub fn copy_opt_string(s: &Option<String>) -> (r: Option<String>)
    ensures
        r == *s,
{
    match s {
        Some(x) => Some(x.clone()),
        None => None,
    }
}

impl Clone for RepoConfig {
    fn clone(&self) -> (r: Self)
        ensures
            r == *self,
    {
        RepoConfig {
            name: self.name.clone(),
            path: self.path.clone(),
            base_branch: copy_opt_string(&self.base_branch),
            worktree_root: copy_opt_string(&self.worktree_root),
        }
    }
}

impl Clone for General {
    fn clone(&self) -> (r: Self)
        ensures
            r == *self,
    {
        General {
            default_base_branch: self.default_base_branch.clone(),
            worktree_root: copy_opt_string(&self.worktree_root),
            fetch_cadence_secs: self.fetch_cadence_secs,
        }
    }
}

pub open spec fn main_branch() -> Seq<char> {
    seq!['m', 'a', 'i', 'n']
}

/// Base branch used when neither the repository nor `origin/HEAD` names
/// one: `main`.
pub fn default_base_branch() -> (s: String)
    ensures
        s@ == main_branch(),
{
    let s = string_of("main");
    proof {
        reveal_strlit("main");
    }
    s
}

/// Default background-fetch interval: five minutes.
pub fn default_fetch_cadence_secs() -> (n: u64)
    ensures
        n == 300,
{
    300
}

impl Default for General {
    fn default() -> (g: Self)
        ensures
            g.default_base_branch@ == main_branch(),
            g.worktree_root.is_none(),
            g.fetch_cadence_secs == 300,
    {
        General {
            default_base_branch: default_base_branch(),
            worktree_root: None,
            fetch_cadence_secs: default_fetch_cadence_secs(),
        }
    }
}

impl Default for ThemeConfig {
    fn default() -> (t: Self)
        ensures
            t.base == ThemeName::Default,
    {
        ThemeConfig { base: ThemeName::Default }
    }
}

/// The configuration used when no file exists: `main` as base branch,
/// no worktree root, a 300 s fetch cadence, the default theme and no
/// repositories.
pub open spec fn is_default_config(c: Config) -> bool {
    &&& c.general.default_base_branch@ == main_branch()
    &&& c.general.worktree_root.is_none()
    &&& c.general.fetch_cadence_secs == 300
    &&& c.theme.base == ThemeName::Default
    &&& c.repos@.len() == 0
}

impl Default for Config {
    fn default() -> (c: Self)
        ensures
            is_default_config(c),
    {
        Config { general: General::default(), theme: ThemeConfig::default(), repos: Vec::new() }
    }
}

/// What reading the configuration file produced.
pub enum ConfigLoad {
    /// No file at the configured path.
    Missing,
    /// The file parsed.
    Parsed(Config),
    /// The file exists but reading or parsing it failed, with the message.
    Failed(String),
}

impl Config {
    /// A copy of this configuration.
    pub fn copy(&self) -> (r: Self)
        ensures
            r.general == self.general,
            r.theme == self.theme,
            r.repos@ == self.repos@,
    {
        let mut repos: Vec<RepoConfig> = Vec::new();
        let mut i: usize = 0;
        while i < self.repos.len()
            invariant
                i <= self.repos@.len(),
                repos@ == self.repos@.subrange(0, i as int),
            decreases self.repos@.len() - i,
        {
            repos.push(self.repos[i].clone());
            i += 1;
        }
        assert(repos@ =~= self.repos@);
        Config { general: self.general.clone(), theme: self.theme, repos }
    }

    /// The configuration to run with, given what reading the file
    /// produced: defaults when the file is missing or broken, and in the
    /// broken case the message to surface to the user.
    pub fn load_or_default_lossy(load: ConfigLoad) -> (r: (Self, Option<String>))
        ensures
            match load {
                ConfigLoad::Missing => is_default_config(r.0) && r.1.is_none(),
                ConfigLoad::Parsed(c) => r.0 == c && r.1.is_none(),
                ConfigLoad::Failed(msg) => is_default_config(r.0) && r.1 == Some(msg),
            },
    {
        match load {
            ConfigLoad::Missing => (Config::default(), None),
            ConfigLoad::Parsed(c) => (c, None),
            ConfigLoad::Failed(msg) => (Config::default(), Some(msg)),
        }
    }

    pub open spec fn spec_has_repo_named(&self, name: Seq<char>) -> bool {
        exists|i: int| 0 <= i < self.repos@.len() && #[trigger] self.repos@[i].name@ == name
    }

    /// Is a repository of this name configured?
    pub fn has_repo_named(&self, name: &str) -> (b: bool)
        ensures
            b == self.spec_has_repo_named(name@),
    {
        let mut i: usize = 0;
        while i < self.repos.len()
            invariant
                i <= self.repos@.len(),
                forall|j: int| 0 <= j < i ==> #[trigger] self.repos@[j].name@ != name@,
            decreases self.repos@.len() - i,
        {
            if crate::text::str_eq(self.repos[i].name.as_str(), name) {
                return true;
            }
            i += 1;
        }
        false
    }
}

} // verus!
