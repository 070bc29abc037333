use grove::app::{AppState, SidebarCursor};
use grove::commands::{create_worktree, create_worktree_from_remote, failure_message, fetch_remote, stage_path, unstage_path};
use grove::config::{Config, ConfigLoad, RepoConfig};
use grove::dispatch::AppMessage;
use grove::flags::PathFlags;
use grove::flows::slug_of;
use grove::git::{
    collect_diff, default_branch_of_target, derive_worktree_path, join_path, merge_branch_lists, parent_path,
    should_descend, tally_status, DeltaKind, DiffEvent, DiffFile, DiffLineKind, EntryStatus,
};
use grove::idmap::{index_remap, key_remap, IndexRemap, KeyRemap, WorktreeMap};
use grove::modals::{LogModal, Modal};
use grove::repos::file_name;
use grove::startup::{tail_lines, AppPaths};
use grove::state::{accept_loaded, current_schema_version, PersistedState, PersistedUi};
use grove::theme::{resolve, Color, ThemeName};
use grove::pathinput::{completion_query, expand_path, pick_completions};
use grove::view::{centered_rect, frame_too_small, Area};

#[test]
fn resolve_maps_each_name() {
    assert_eq!(resolve(ThemeName::Default).accent, Color::Cyan);
    assert!(matches!(resolve(ThemeName::Tokyonight).accent, Color::Rgb(..)));
    assert!(matches!(resolve(ThemeName::Gruvbox).accent, Color::Rgb(..)));
}

#[test]
fn resolves_paths_on_this_platform() {
    let paths = AppPaths::resolve().expect("should resolve on any supported OS");
    assert!(paths.config_file.ends_with("config.toml"));
    assert!(paths.state_file.ends_with("state.toml"));
    assert!(paths.log_file.ends_with("grove.log"));
}

#[test]
fn app_paths_join_the_file_names() {
    let p = AppPaths::from_dirs("/c", "/d/", "");
    assert_eq!(p.config_file, "/c/config.toml");
    assert_eq!(p.state_file, "/d/state.toml");
    assert_eq!(p.log_file, "grove.log");
}

#[test]
fn load_or_default_lossy_returns_defaults_for_missing_file() {
    let (cfg, err) = Config::load_or_default_lossy(ConfigLoad::Missing);
    assert_eq!(cfg, Config::default());
    assert!(err.is_none());
}

#[test]
fn load_or_default_lossy_falls_back_on_parse_error() {
    let (cfg, err) = Config::load_or_default_lossy(ConfigLoad::Failed("parsing config: expected `]`".to_string()));
    assert_eq!(cfg, Config::default());
    let msg = err.expect("expected parse error message");
    assert!(msg.contains("parsing config"));
}

#[test]
fn default_config_values() {
    let cfg = Config::default();
    assert_eq!(cfg.general.default_base_branch, "main");
    assert!(cfg.general.worktree_root.is_none());
    assert!(cfg.general.fetch_cadence_secs > 0);
    assert!(cfg.repos.is_empty());
    assert_eq!(cfg.theme.base, ThemeName::Default);
}

#[test]
fn has_repo_named_checks_names() {
    let mut cfg = Config::default();
    cfg.repos.push(RepoConfig { name: "a".to_string(), path: "/a".to_string(), base_branch: None, worktree_root: None });
    assert!(cfg.has_repo_named("a"));
    assert!(!cfg.has_repo_named("b"));
}

#[test]
fn load_rejects_incompatible_schema() {
    let stale = PersistedState { schema_version: 99, ui: PersistedUi { active_worktree: None, expanded: PathFlags::new() } };
    assert!(accept_loaded(stale).is_none());
    let fresh = PersistedState {
        schema_version: current_schema_version(),
        ui: PersistedUi { active_worktree: None, expanded: PathFlags::new() },
    };
    assert!(accept_loaded(fresh).is_some());
}

#[test]
fn scroll_clamps_to_tail() {
    let mut app: AppState<()> = AppState::fixture();
    app.ui.modal = Some(Modal::ViewLog(LogModal {
        lines: (0..100).map(|i| format!("entry-{i}")).collect(),
        scroll: 90,
        source: None,
    }));
    for _ in 0..50 {
        app.update(AppMessage::LogScrollDown);
    }
    let Some(Modal::ViewLog(m)) = &app.ui.modal else {
        panic!("expected log modal");
    };
    assert_eq!(m.scroll, 99);
    for _ in 0..200 {
        app.update(AppMessage::LogScrollUp);
    }
    let Some(Modal::ViewLog(m)) = &app.ui.modal else {
        unreachable!();
    };
    assert_eq!(m.scroll, 0);
}

#[test]
fn log_viewer_opens_at_the_last_line() {
    let mut app: AppState<()> = AppState::fixture();
    app.open_log_viewer_with(vec!["a".to_string(), "b".to_string(), "c".to_string()], None);
    let Some(Modal::ViewLog(m)) = &app.ui.modal else {
        panic!("expected log modal");
    };
    assert_eq!(m.scroll, 2);
}

#[test]
fn tail_lines_drops_a_cut_first_line() {
    assert_eq!(tail_lines("cut\nfirst\r\nsecond\n", true), vec!["first", "second"]);
    assert_eq!(tail_lines("first\nsecond", false), vec!["first", "second"]);
    assert_eq!(tail_lines("", true), Vec::<String>::new());
    assert_eq!(tail_lines("a\n\nb\n", false), vec!["a", "", "b"]);
}

#[test]
fn path_flags_insert_get_remove() {
    let mut f = PathFlags::new();
    assert_eq!(f.get("/a"), None);
    f.insert("/a".to_string(), false);
    f.insert("/b".to_string(), true);
    f.insert("/a".to_string(), true);
    assert_eq!(f.get("/a"), Some(true));
    assert_eq!(f.get("/b"), Some(true));
    assert_eq!(f.to_pairs().len(), 2);
    f.remove("/a");
    assert_eq!(f.get("/a"), None);
    let g = PathFlags::from_pairs(vec![("/x".to_string(), false), ("/x".to_string(), true)]);
    assert_eq!(g.get("/x"), Some(true));
}

#[test]
fn index_and_key_remaps() {
    let t = IndexRemap::Table(vec![Some(2), None, Some(0)]);
    assert_eq!(index_remap(&t, 0), Some(2));
    assert_eq!(index_remap(&t, 1), None);
    assert_eq!(index_remap(&t, 3), None);
    let r = IndexRemap::Removed(1);
    assert_eq!(index_remap(&r, 0), Some(0));
    assert_eq!(index_remap(&r, 1), None);
    assert_eq!(index_remap(&r, 4), Some(3));
    assert_eq!(key_remap(&KeyRemap::RepoRemoved(1), (0, 5)), Some((0, 5)));
    assert_eq!(key_remap(&KeyRemap::RepoRemoved(1), (1, 5)), None);
    assert_eq!(key_remap(&KeyRemap::RepoRemoved(1), (2, 5)), Some((1, 5)));
    assert_eq!(key_remap(&KeyRemap::InRepo(0, IndexRemap::Removed(0)), (0, 1)), Some((0, 0)));
    assert_eq!(key_remap(&KeyRemap::InRepo(0, IndexRemap::Removed(0)), (3, 1)), Some((3, 1)));
}

#[test]
fn worktree_map_remap_moves_values() {
    let mut m: WorktreeMap<&str> = WorktreeMap::new();
    m.insert((0, 0), "a");
    m.insert((0, 1), "b");
    m.insert((1, 0), "c");
    m.remap(&KeyRemap::InRepo(0, IndexRemap::Removed(0)));
    assert_eq!(m.get((0, 0)), Some(&"b"));
    assert!(!m.contains_key((0, 1)));
    assert_eq!(m.get((1, 0)), Some(&"c"));
    assert_eq!(m.remove((1, 0)), Some("c"));
    assert!(!m.contains_key((1, 0)));
}

#[test]
fn git_commands_carry_exact_arguments() {
    let c = create_worktree("/r", "feat/x", "/r-feat-x", "main");
    assert_eq!(c.cwd, "/r");
    assert_eq!(c.args, vec!["worktree", "add", "-b", "feat/x", "/r-feat-x", "main"]);
    assert_eq!(stage_path("/w", "src/a.rs").args, vec!["add", "--", "src/a.rs"]);
    assert_eq!(unstage_path("/w", "src/a.rs").args, vec!["restore", "--staged", "--", "src/a.rs"]);
    let r = create_worktree_from_remote("/r", "origin", "fix", "fix-1", "/p");
    assert_eq!(r.args, vec!["worktree", "add", "--track", "-b", "fix-1", "/p", "origin/fix"]);
    assert_eq!(fetch_remote("/r").args, vec!["fetch", "--all", "--prune", "--quiet"]);
}

#[test]
fn git_failure_message_names_the_command() {
    let c = fetch_remote("/r");
    let msg = failure_message(&c, "fatal: boom\n");
    assert!(msg.contains("git fetch"));
    assert!(msg.contains("fatal: boom"));
}

#[test]
fn path_helpers() {
    assert_eq!(join_path("/a", "b"), "/a/b");
    assert_eq!(join_path("/a/", "b"), "/a/b");
    assert_eq!(join_path("", "b"), "b");
    assert_eq!(parent_path("/a/b"), Some("/a".to_string()));
    assert_eq!(parent_path("/a"), Some("/".to_string()));
    assert_eq!(parent_path("/"), None);
    assert_eq!(file_name("/tmp/my-repo"), Some("my-repo".to_string()));
    assert_eq!(file_name("/tmp/my-repo/"), Some("my-repo".to_string()));
    assert_eq!(default_branch_of_target("refs/remotes/origin/main"), "main");
    assert_eq!(default_branch_of_target("trunk"), "trunk");
}

#[test]
fn derive_worktree_path_custom_root_uses_repo_subdir() {
    let path = derive_worktree_path("/nonexistent-grove/origin", "myrepo", "feat/thing", Some("/nonexistent-grove/worktrees"));
    assert_eq!(path, "/nonexistent-grove/worktrees/myrepo/feat-thing");
}

#[test]
fn derive_worktree_path_sits_beside_the_repo() {
    let path = derive_worktree_path("/nonexistent-grove/origin", "repo", "branch", None);
    assert_eq!(path, "/nonexistent-grove/repo-branch");
}

#[test]
fn derive_worktree_path_avoids_collisions() {
    let path = derive_worktree_path("/x/y", "usr", "bin", Some("/"));
    assert_ne!(path, "/usr/bin");
    assert!(path.ends_with("-2"));
}

#[test]
fn scan_skips_hidden_and_build_dirs() {
    assert!(should_descend("src"));
    assert!(should_descend(".git"));
    assert!(!should_descend(".cache"));
    assert!(!should_descend("node_modules"));
    assert!(!should_descend("target"));
}

#[test]
fn branch_list_merges_remote_only_branches() {
    let locals = vec!["main".to_string(), "feat".to_string()];
    let remotes = vec!["origin/HEAD".to_string(), "origin/main".to_string(), "origin/fix".to_string(), "nohash".to_string()];
    let out = merge_branch_lists(&locals, &remotes);
    let shown: Vec<String> = out.iter().map(|b| b.display()).collect();
    assert_eq!(shown, vec!["main", "feat", "origin/fix"]);
    assert!(out[2].is_remote_only());
}

fn entry() -> EntryStatus {
    EntryStatus {
        conflicted: false,
        index_new: false,
        index_modified: false,
        index_deleted: false,
        index_renamed: false,
        index_typechange: false,
        wt_modified: false,
        wt_deleted: false,
        wt_renamed: false,
        wt_typechange: false,
    }
}

#[test]
fn tally_counts_each_flag_kind() {
    let entries = vec![
        EntryStatus { index_new: true, ..entry() },
        EntryStatus { index_modified: true, wt_modified: true, ..entry() },
        EntryStatus { wt_deleted: true, ..entry() },
        EntryStatus { conflicted: true, wt_modified: true, ..entry() },
    ];
    let s = tally_status(&entries, 3, 0);
    assert_eq!((s.staged, s.modified, s.deleted, s.conflicts, s.ahead, s.behind), (2, 1, 1, 1, 3, 0));
}

#[test]
fn collect_diff_groups_lines_under_hunks() {
    let events = vec![
        DiffEvent::Line { origin: '+', content: "ignored\n".to_string() },
        DiffEvent::File { path: "a.rs".to_string(), kind: DeltaKind::Modified },
        DiffEvent::Hunk { header: "@@ -1 +1 @@\n".to_string() },
        DiffEvent::Line { origin: '-', content: "old\n".to_string() },
        DiffEvent::Line { origin: '+', content: "new\n\n".to_string() },
        DiffEvent::Line { origin: ' ', content: "same".to_string() },
        DiffEvent::File { path: "b.rs".to_string(), kind: DeltaKind::Added },
    ];
    let mut out: Vec<DiffFile> = Vec::new();
    collect_diff(&events, true, &mut out);
    assert_eq!(out.len(), 2);
    assert_eq!(out[0].path, "a.rs");
    assert!(out[0].staged);
    assert_eq!((out[0].adds, out[0].dels), (1, 1));
    assert_eq!(out[0].hunks.len(), 1);
    let lines = &out[0].hunks[0].lines;
    assert_eq!(lines.len(), 3);
    assert_eq!(lines[0].kind, DiffLineKind::Del);
    assert_eq!(lines[1].content, "new");
    assert_eq!(lines[2].kind, DiffLineKind::Context);
    assert_eq!(out[1].kind, DeltaKind::Added);
    assert!(out[1].hunks.is_empty());
}

#[test]
fn slug_is_six_hex_digits_of_low_bits() {
    assert_eq!(slug_of(0), "000000");
    assert_eq!(slug_of(0x1abcdef), "abcdef");
    assert_eq!(slug_of(255), "0000ff");
}

#[test]
fn cursor_lands_on_visible_rows_after_collapse() {
    let mut app: AppState<()> = AppState::fixture();
    app.ui.cursor = Some(SidebarCursor::Worktree { repo: 0, worktree: 2 });
    app.update(AppMessage::CollapseOrAscend);
    app.update(AppMessage::CollapseOrAscend);
    assert_eq!(app.ui.cursor, Some(SidebarCursor::Repo(0)));
    let rows = app.visible_items();
    assert_eq!(rows.len(), 4);
    assert!(rows.contains(&app.ui.cursor.unwrap()));
}

#[test]
fn expand_path_handles_home_and_relative_paths() {
    assert_eq!(expand_path("~", Some("/home/u"), "/w").unwrap(), "/home/u");
    assert_eq!(expand_path("~/dev/x", Some("/home/u"), "/w").unwrap(), "/home/u/dev/x");
    assert_eq!(expand_path("rel/p", Some("/home/u"), "/w").unwrap(), "/w/rel/p");
    assert_eq!(expand_path("/abs", None, "/w").unwrap(), "/abs");
    assert_eq!(expand_path("~x", None, "/w/").unwrap(), "/w/~x");
    assert_eq!(expand_path("~/a", None, "/w").unwrap_err(), "HOME environment variable not set");
}

#[test]
fn completion_query_splits_directory_and_name_start() {
    assert_eq!(completion_query("/tmp/my", None), Some(("/tmp/".to_string(), "my".to_string())));
    assert_eq!(completion_query("~/de", Some("/home/u")), Some(("/home/u/".to_string(), "de".to_string())));
    assert_eq!(completion_query("", Some("/home/u")), Some(("/home/u/".to_string(), "".to_string())));
    assert_eq!(completion_query("~", None), None);
    assert_eq!(completion_query("proj", None), Some(("./".to_string(), "proj".to_string())));
}

#[test]
fn completions_are_visible_matching_sorted_and_capped() {
    let names: Vec<String> = ["src", ".git", "sbin", "scripts", "docs", "snap"].iter().map(|s| s.to_string()).collect();
    assert_eq!(pick_completions(&names, "s"), vec!["sbin", "scripts", "snap", "src"]);
    assert_eq!(pick_completions(&names, ""), vec!["docs", "sbin", "scripts", "snap", "src"]);
    let many: Vec<String> = (0..15).rev().map(|i| format!("d{i:02}")).collect();
    let picked = pick_completions(&many, "d");
    assert_eq!(picked.len(), 10);
    assert_eq!(picked[0], "d00");
    assert_eq!(picked[9], "d09");
}

#[test]
fn repo_name_for_checks_directory_repository_and_name() {
    let mut app: AppState<()> = AppState::empty_fixture("/tmp/grove-test-config.toml".to_string());
    app.config.repos.push(RepoConfig { name: "taken".to_string(), path: "/x/taken".to_string(), base_branch: None, worktree_root: None });
    assert_eq!(app.repo_name_for("/p/proj", false, true).unwrap_err(), "not a directory: /p/proj");
    assert_eq!(app.repo_name_for("/p/proj", true, false).unwrap_err(), "not a git repository: /p/proj");
    assert_eq!(app.repo_name_for("/", true, true).unwrap_err(), "could not derive repo name from path");
    assert_eq!(app.repo_name_for("/y/taken", true, true).unwrap_err(), "a repository named 'taken' already exists");
    assert_eq!(app.repo_name_for("/p/proj", true, true).unwrap(), "proj");
}

#[test]
fn centered_rect_and_minimum_frame() {
    let area = Area { x: 2, y: 1, width: 80, height: 24 };
    assert_eq!(centered_rect(60, 10, area), Area { x: 12, y: 8, width: 60, height: 10 });
    assert_eq!(centered_rect(100, 30, area), area);
    assert_eq!(centered_rect(61, 11, area), Area { x: 11, y: 7, width: 61, height: 11 });
    assert!(frame_too_small(49, 40));
    assert!(frame_too_small(80, 11));
    assert!(!frame_too_small(50, 12));
}

fn listed(branch: &str, primary: bool) -> grove::model::Worktree {
    grove::model::Worktree {
        head: grove::model::HeadRef::Branch(branch.to_string()),
        path: format!("/r/{branch}"),
        is_primary: primary,
        status: None,
        pr: None,
    }
}

#[test]
fn worktrees_keep_primary_first_and_sort_the_rest_by_label() {
    let list = vec![listed("main", true), listed("zeta", false), listed("alpha", false), listed("fix/b", false)];
    let out = grove::git::order_worktrees(list);
    let labels: Vec<String> = out.iter().map(|w| w.head.label()).collect();
    assert_eq!(labels, vec!["main", "alpha", "fix/b", "zeta"]);
    assert!(out[0].is_primary);
    assert!(grove::git::order_worktrees(vec![]).is_empty());
}

#[test]
fn worktrees_with_equal_labels_keep_their_listing_order() {
    let detached = |oid: &str, path: &str| grove::model::Worktree {
        head: grove::model::HeadRef::Detached(oid.to_string()),
        path: path.to_string(),
        is_primary: false,
        status: None,
        pr: None,
    };
    let list = vec![listed("main", true), detached("abc1234", "/r/second"), listed("a", false), detached("abc1234", "/r/first")];
    let out = grove::git::order_worktrees(list);
    let paths: Vec<&str> = out.iter().map(|w| w.path.as_str()).collect();
    let labels: Vec<String> = out.iter().map(|w| w.head.label()).collect();
    assert_eq!(labels[3], "a");
    assert_eq!(paths, vec!["/r/main", "/r/second", "/r/first", "/r/a"]);
}

#[test]
fn move_diff_cursor_clamps_any_step() {
    let file = |p: &str| grove::git::DiffFile {
        path: p.to_string(),
        staged: false,
        adds: 0,
        dels: 0,
        kind: grove::git::DeltaKind::Modified,
        hunks: Vec::new(),
    };
    let mut app: AppState<()> = AppState::fixture();
    app.ui.cursor = Some(SidebarCursor::Worktree { repo: 0, worktree: 1 });
    app.set_diff((0, 1), vec![file("a"), file("b"), file("c")]);
    app.move_diff_cursor(5);
    assert_eq!(app.diffs.get((0, 1)).unwrap().cursor, 2);
    app.move_diff_cursor(-1);
    assert_eq!(app.diffs.get((0, 1)).unwrap().cursor, 1);
    app.move_diff_cursor(i32::MIN);
    assert_eq!(app.diffs.get((0, 1)).unwrap().cursor, 0);
    app.move_diff_cursor(i32::MAX);
    assert_eq!(app.diffs.get((0, 1)).unwrap().cursor, 2);
}

#[test]
fn scan_steps_find_repositories_and_stop_at_depth() {
    use_scan_step();
}

fn use_scan_step() {
    assert_eq!(grove::git::scan_step(true, 0, 1), grove::git::ScanStep::Found);
    assert_eq!(grove::git::scan_step(false, 1, 1), grove::git::ScanStep::Stop);
    assert_eq!(grove::git::scan_step(false, 0, 1), grove::git::ScanStep::Descend(1));
}
