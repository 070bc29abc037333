use grove::app::{AppState, Direction, Effect, FocusZone, MainView, SidebarCursor};
use grove::config::{Config, RepoConfig};
use grove::dispatch::AppMessage;
use grove::flows::BranchSource;
use grove::model::{HeadRef, Worktree};
use grove::modals::{DeleteChoice, DeleteVariant, DiscoveredReposModal, Modal};
use grove::state::{current_schema_version, ActiveWorktreeId, PersistedState, PersistedUi};
use grove::flags::PathFlags;
use grove::theme::ThemeName;

type App = AppState<()>;

fn fixture() -> App {
    AppState::fixture()
}

fn wt(repo: usize, worktree: usize) -> Option<SidebarCursor> {
    Some(SidebarCursor::Worktree { repo, worktree })
}

fn type_text(app: &mut App, text: &str) {
    for c in text.chars() {
        app.update(AppMessage::InputChar(c));
    }
}

#[test]
fn j_moves_cursor_through_visible_tree() {
    let mut app = fixture();
    assert_eq!(app.ui.cursor, Some(SidebarCursor::Repo(0)));
    app.update(AppMessage::MoveCursor(Direction::Down));
    assert_eq!(app.ui.cursor, wt(0, 0));
    assert_eq!(app.active_worktree_id(), Some((0, 0)));
    app.update(AppMessage::MoveCursor(Direction::Down));
    assert_eq!(app.ui.cursor, wt(0, 1));
    assert_eq!(app.active_worktree_id(), Some((0, 1)));
}

#[test]
fn moving_cursor_to_worktree_activates_it() {
    let mut app = fixture();
    assert_eq!(app.active_worktree_id(), None);
    app.update(AppMessage::MoveCursor(Direction::Down));
    assert!(app.active_worktree_id().is_some());
}

#[test]
fn j_skips_collapsed_repo_children() {
    let mut app = fixture();
    app.ui.expanded.insert("/Users/sebas/dev/grove".to_string(), false);
    app.update(AppMessage::MoveCursor(Direction::Down));
    assert_eq!(app.ui.cursor, Some(SidebarCursor::Repo(1)));
}

#[test]
fn h_on_worktree_ascends_to_parent() {
    let mut app = fixture();
    app.ui.cursor = wt(0, 1);
    app.update(AppMessage::CollapseOrAscend);
    assert_eq!(app.ui.cursor, Some(SidebarCursor::Repo(0)));
}

#[test]
fn h_on_expanded_repo_collapses() {
    let mut app = fixture();
    app.update(AppMessage::CollapseOrAscend);
    assert!(!app.ui.is_expanded("/Users/sebas/dev/grove"));
}

#[test]
fn l_on_collapsed_repo_expands() {
    let mut app = fixture();
    app.ui.expanded.insert("/Users/sebas/dev/grove".to_string(), false);
    app.update(AppMessage::ExpandOrDescend);
    assert!(app.ui.is_expanded("/Users/sebas/dev/grove"));
}

#[test]
fn l_on_expanded_repo_descends_to_first_worktree() {
    let mut app = fixture();
    app.update(AppMessage::ExpandOrDescend);
    assert_eq!(app.ui.cursor, wt(0, 0));
}

#[test]
fn cursor_on_worktree_is_the_active_worktree() {
    let mut app = fixture();
    app.ui.cursor = wt(0, 2);
    assert_eq!(app.active_worktree_id(), Some((0, 2)));
}

#[test]
fn enter_on_repo_toggles_expansion() {
    let mut app = fixture();
    app.update(AppMessage::Activate);
    assert!(!app.ui.is_expanded("/Users/sebas/dev/grove"));
    app.update(AppMessage::Activate);
    assert!(app.ui.is_expanded("/Users/sebas/dev/grove"));
}

#[test]
fn persisted_round_trip_restores_expanded_and_active() {
    let mut app = fixture();
    app.ui.expanded.insert("/Users/sebas/dotfiles".to_string(), false);
    app.ui.cursor = wt(0, 2);
    let persisted = app.to_persisted();
    let mut restored = fixture();
    restored.apply_persisted(persisted);
    assert!(!restored.ui.is_expanded("/Users/sebas/dotfiles"));
    assert_eq!(restored.ui.cursor, wt(0, 2));
    assert_eq!(restored.active_worktree_id(), Some((0, 2)));
}

#[test]
fn persisted_active_is_dropped_when_path_no_longer_exists() {
    let mut app = fixture();
    let persisted = PersistedState {
        schema_version: current_schema_version(),
        ui: PersistedUi {
            active_worktree: Some(ActiveWorktreeId { path: "/Users/sebas/dev/grove-gone-worktree".to_string() }),
            expanded: PathFlags::new(),
        },
    };
    app.apply_persisted(persisted);
    assert_eq!(app.active_worktree_id(), None);
}

#[test]
fn active_worktree_survives_branch_switch_inside_worktree() {
    let mut app = fixture();
    app.ui.cursor = wt(0, 1);
    assert!(app.active_worktree_id().is_some());
    app.repos[0].worktrees[1].head = HeadRef::Branch("now-on-some-other-branch".to_string());
    assert_eq!(app.active_worktree_id(), Some((0, 1)));
}

#[test]
fn cycle_focus_toggles_between_sidebar_and_main() {
    let mut app = fixture();
    assert_eq!(app.ui.focus, FocusZone::Sidebar);
    app.update(AppMessage::CycleFocus);
    assert_eq!(app.ui.focus, FocusZone::Main);
    app.update(AppMessage::CycleFocus);
    assert_eq!(app.ui.focus, FocusZone::Sidebar);
}

#[test]
fn cursor_clamps_at_bounds() {
    let mut app = fixture();
    app.update(AppMessage::MoveCursor(Direction::Up));
    assert_eq!(app.ui.cursor, Some(SidebarCursor::Repo(0)));
    for _ in 0..20 {
        app.update(AppMessage::MoveCursor(Direction::Down));
    }
    assert_eq!(app.ui.cursor, wt(1, 1));
}

#[test]
fn open_add_repo_replaces_modal_with_add_repo_variant() {
    let mut app = fixture();
    app.update(AppMessage::OpenAddRepo);
    assert!(matches!(app.ui.modal, Some(Modal::AddRepo(_))));
}

#[test]
fn typing_fills_the_add_repo_input() {
    let mut app = fixture();
    app.update(AppMessage::OpenAddRepo);
    type_text(&mut app, "/tmp/foo");
    let Some(Modal::AddRepo(m)) = &app.ui.modal else {
        panic!("expected AddRepo modal");
    };
    assert_eq!(m.input.value(), "/tmp/foo");
}

#[test]
fn submit_modal_on_empty_input_surfaces_error() {
    let mut app = fixture();
    app.update(AppMessage::OpenAddRepo);
    let eff = app.update(AppMessage::SubmitModal);
    assert!(eff.is_none());
    let Some(Modal::AddRepo(m)) = &app.ui.modal else {
        panic!("modal should remain open with error");
    };
    assert!(m.error.is_some(), "expected error to be set");
}

#[test]
fn submit_modal_on_nonexistent_path_surfaces_error() {
    let mut app = fixture();
    app.update(AppMessage::OpenAddRepo);
    type_text(&mut app, "/definitely/does/not/exist/anywhere");
    let eff = app.update(AppMessage::SubmitModal);
    let Some(Effect::AddRepo { modal, raw }) = eff else {
        panic!("expected the path to be handed over");
    };
    assert_eq!(raw, "/definitely/does/not/exist/anywhere");
    assert!(app.ui.modal.is_none());
    app.reopen_add_repo(modal, "resolving path: No such file or directory".to_string());
    let Some(Modal::AddRepo(m)) = &app.ui.modal else {
        panic!("modal should remain open with error");
    };
    assert!(m.error.is_some());
    assert_eq!(m.input.value(), "/definitely/does/not/exist/anywhere");
}

#[test]
fn try_add_repo_rejects_duplicate_name() {
    let mut app: App = AppState::empty_fixture("/tmp/grove-test-config.toml".to_string());
    app.config.repos.push(RepoConfig {
        name: "existing".to_string(),
        path: "/tmp".to_string(),
        base_branch: None,
        worktree_root: None,
    });
    let err = app.check_repo_name("existing").expect_err("should reject duplicate name");
    assert!(err.contains("already exists"));
    assert!(app.check_repo_name("fresh").is_ok());
}

#[test]
fn add_repo_commit_appends_and_selects_it() {
    let mut app: App = AppState::empty_fixture("/tmp/grove-test-config.toml".to_string());
    let cfg = app.config_with_repo("myproject", "/tmp/myproject", &None);
    assert_eq!(cfg.repos.len(), 1);
    assert_eq!(cfg.repos[0].name, "myproject");
    let primary = Worktree {
        head: HeadRef::Branch("main".to_string()),
        path: "/tmp/myproject".to_string(),
        is_primary: true,
        status: None,
        pr: None,
    };
    app.commit_add_repo(cfg, "myproject".to_string(), "/tmp/myproject".to_string(), None, vec![primary], false);
    assert_eq!(app.repos.len(), 1);
    assert_eq!(app.repos[0].name, "myproject");
    assert_eq!(app.repos[0].base_branch, "main");
    assert_eq!(app.config.repos.len(), 1);
    assert_eq!(app.ui.cursor, Some(SidebarCursor::Repo(0)));
}

#[test]
fn remove_repo_drops_from_config_and_state() {
    let mut app: App = AppState::empty_fixture("/tmp/grove-test-config.toml".to_string());
    let cfg = app.config_with_repo("todelete", "/tmp/todelete", &Some("trunk".to_string()));
    app.commit_add_repo(cfg, "todelete".to_string(), "/tmp/todelete".to_string(), Some("trunk".to_string()), vec![], false);
    assert_eq!(app.repos[0].base_branch, "trunk");
    let cfg = app.config_without_repo(0);
    assert_eq!(cfg.repos.len(), 0);
    app.commit_remove_repo(0, cfg, false);
    assert_eq!(app.repos.len(), 0);
    assert!(app.ui.cursor.is_none());
    assert_eq!(app.config.repos.len(), 0);
}

#[test]
fn open_confirm_remove_uses_parent_repo_when_cursor_on_worktree() {
    let mut app = fixture();
    app.ui.cursor = wt(1, 0);
    app.update(AppMessage::OpenConfirmRemoveRepo);
    match app.ui.modal {
        Some(Modal::ConfirmRemoveRepo { repo_idx }) => assert_eq!(repo_idx, 1),
        other => panic!("expected ConfirmRemoveRepo(1), got {other:?}"),
    }
}

#[test]
fn canceling_add_repo_does_not_write_config() {
    let mut app: App = AppState::empty_fixture("/tmp/grove-test-config.toml".to_string());
    app.update(AppMessage::OpenAddRepo);
    type_text(&mut app, "/some/path");
    let eff = app.update(AppMessage::CloseModal);
    assert!(eff.is_none());
    assert!(app.ui.modal.is_none());
    assert!(app.repos.is_empty());
    assert!(app.config.repos.is_empty());
}

#[test]
fn remove_repo_clears_matching_active_worktree() {
    let mut app = fixture();
    app.config.repos = app
        .repos
        .iter()
        .map(|r| RepoConfig { name: r.name.clone(), path: r.root_path.clone(), base_branch: None, worktree_root: None })
        .collect();
    app.ui.cursor = wt(0, 1);
    assert!(app.active_worktree_id().is_some());
    app.update(AppMessage::OpenConfirmRemoveRepo);
    let eff = app.update(AppMessage::SubmitModal);
    let Some(Effect::RemoveRepo { idx, config }) = eff else {
        panic!("expected the removal to be handed over");
    };
    assert_eq!(idx, 0);
    assert_eq!(config.repos.len(), 1);
    assert_eq!(config.repos[0].name, "dotfiles");
    app.commit_remove_repo(idx, config, false);
    assert_eq!(app.active_worktree_id(), None);
    assert_eq!(app.ui.cursor, Some(SidebarCursor::Repo(0)));
    assert_eq!(app.repos[0].name, "dotfiles");
}

#[test]
fn remap_worktree_state_preserves_views_across_reorder() {
    let mut app = fixture();
    let r = 0;
    app.main_views.insert((r, 0), MainView::Terminal);
    app.main_views.insert((r, 1), MainView::Diff);
    app.main_views.insert((r, 2), MainView::Terminal);
    app.ui.cursor = wt(r, 1);
    let new_list = vec![
        app.repos[r].worktrees[0].clone(),
        app.repos[r].worktrees[2].clone(),
        app.repos[r].worktrees[1].clone(),
    ];
    app.remap_worktree_state(r, &new_list);
    assert_eq!(app.main_views.get((r, 0)), Some(&MainView::Terminal));
    assert_eq!(app.main_views.get((r, 2)), Some(&MainView::Diff));
    assert_eq!(app.main_views.get((r, 1)), Some(&MainView::Terminal));
    assert_eq!(app.ui.cursor, wt(r, 2));
}

#[test]
fn remap_worktree_state_does_not_affect_other_repos() {
    let mut app = fixture();
    app.main_views.insert((0, 0), MainView::Diff);
    app.main_views.insert((1, 0), MainView::Diff);
    app.ui.cursor = wt(1, 0);
    let new_list = vec![app.repos[0].worktrees[0].clone()];
    app.remap_worktree_state(0, &new_list);
    assert_eq!(app.main_views.get((1, 0)), Some(&MainView::Diff));
    assert_eq!(app.ui.cursor, wt(1, 0));
}

#[test]
fn remap_worktree_state_drops_cursor_to_repo_when_list_empty() {
    let mut app = fixture();
    app.ui.cursor = wt(0, 1);
    app.remap_worktree_state(0, &vec![]);
    assert_eq!(app.ui.cursor, Some(SidebarCursor::Repo(0)));
    assert_eq!(app.active_worktree_id(), None);
}

#[test]
fn remap_worktree_state_falls_back_to_neighbor_when_cursor_path_gone() {
    let mut app = fixture();
    app.ui.cursor = wt(0, 1);
    let new_list = vec![app.repos[0].worktrees[0].clone(), app.repos[0].worktrees[2].clone()];
    app.remap_worktree_state(0, &new_list);
    assert_eq!(app.ui.cursor, wt(0, 1));
}

#[test]
fn cycle_theme_persists_to_disk() {
    let mut app: App = AppState::empty_fixture("/tmp/grove-test-config.toml".to_string());
    assert_eq!(app.theme_name, ThemeName::default());
    let eff = app.update(AppMessage::CycleTheme);
    assert!(matches!(eff, Some(Effect::SaveConfig)));
    let after = app.theme_name;
    assert_ne!(after, ThemeName::default());
    assert_eq!(app.config.theme.base, after);
}

#[test]
fn theme_cycles_back_after_three_steps() {
    let mut app: App = AppState::empty_fixture("/tmp/grove-test-config.toml".to_string());
    let start = app.theme_name;
    for _ in 0..3 {
        app.update(AppMessage::CycleTheme);
    }
    assert_eq!(app.theme_name, start);
}

fn make_scanning_modal() -> App {
    let mut app: App = AppState::empty_fixture("/tmp/grove-scan-test-config.toml".to_string());
    app.ui.modal = Some(Modal::DiscoveredRepos(DiscoveredReposModal::scanning("/tmp".to_string())));
    app
}

#[test]
fn apply_scan_results_marks_already_configured() {
    let mut app = make_scanning_modal();
    let eff = app.update(AppMessage::ScanReady(vec!["/tmp/existing".to_string(), "/tmp/fresh".to_string()]));
    let Some(Effect::ResolveScan(paths)) = eff else {
        panic!("expected the scan to be handed over");
    };
    app.apply_scan_results(paths, vec!["/tmp/existing".to_string()]);
    let Some(Modal::DiscoveredRepos(m)) = &app.ui.modal else {
        panic!("expected DiscoveredRepos");
    };
    assert!(!m.scanning);
    assert_eq!(m.candidates.len(), 2);
    assert_eq!(m.candidates[0].name, "existing");
    assert!(m.candidates[0].already_configured);
    assert!(!m.candidates[0].selected);
    assert!(!m.candidates[1].already_configured);
    assert!(m.candidates[1].selected);
}

#[test]
fn toggle_discovered_selection_flips_cursor_row() {
    let mut app = make_scanning_modal();
    app.apply_scan_results(vec!["/tmp/a".to_string(), "/tmp/b".to_string()], vec![]);
    app.update(AppMessage::DiscoveredCursorDown);
    app.update(AppMessage::ToggleDiscoveredSelection);
    let Some(Modal::DiscoveredRepos(m)) = &app.ui.modal else {
        unreachable!()
    };
    assert!(m.candidates[0].selected);
    assert!(!m.candidates[1].selected);
}

#[test]
fn submit_discovered_adds_only_selected_and_new_candidates() {
    let mut app = make_scanning_modal();
    app.apply_scan_results(vec!["/tmp/a".to_string(), "/tmp/b".to_string()], vec![]);
    app.update(AppMessage::DiscoveredCursorDown);
    app.update(AppMessage::ToggleDiscoveredSelection);
    let eff = app.update(AppMessage::SubmitModal);
    let Some(Effect::AddDiscovered(m)) = eff else {
        panic!("expected the selection to be handed over");
    };
    let chosen: Vec<&str> = m
        .candidates
        .iter()
        .filter(|c| c.selected && !c.already_configured)
        .map(|c| c.path.as_str())
        .collect();
    assert_eq!(chosen, vec!["/tmp/a"]);
    assert!(app.ui.modal.is_none());
}

fn feature_fixture() -> App {
    let mut app = fixture();
    app.ui.cursor = wt(0, 1);
    app
}

#[test]
fn remove_worktree_modal_opens_merged_variant_when_branch_is_merged() {
    let mut app = feature_fixture();
    let eff = app.update(AppMessage::OpenConfirmRemoveWorktree);
    let Some(Effect::CheckMerged { id, branch, base, .. }) = eff else {
        panic!("expected a merge check");
    };
    assert_eq!(id, (0, 1));
    assert_eq!(branch, "feat/sidebar");
    assert_eq!(base, "main");
    app.open_confirm_remove_worktree_with(id, true);
    let Some(Modal::ConfirmRemoveWorktree { variant, .. }) = &app.ui.modal else {
        panic!("expected ConfirmRemoveWorktree");
    };
    assert_eq!(*variant, DeleteVariant::Merged);
}

#[test]
fn remove_worktree_modal_opens_unmerged_variant_when_branch_diverges() {
    let mut app = feature_fixture();
    app.update(AppMessage::OpenConfirmRemoveWorktree);
    app.open_confirm_remove_worktree_with((0, 1), false);
    let Some(Modal::ConfirmRemoveWorktree { variant, .. }) = &app.ui.modal else {
        panic!("expected ConfirmRemoveWorktree");
    };
    assert_eq!(*variant, DeleteVariant::Unmerged);
}

#[test]
fn primary_checkout_cannot_be_offered_for_removal() {
    let mut app = fixture();
    app.ui.cursor = wt(0, 0);
    let eff = app.update(AppMessage::OpenConfirmRemoveWorktree);
    assert!(eff.is_none());
    assert!(app.ui.modal.is_none());
}

#[test]
fn keep_branch_removes_worktree_but_keeps_branch() {
    let mut app = feature_fixture();
    app.open_confirm_remove_worktree_with((0, 1), true);
    let eff = app.update(AppMessage::ConfirmWorktreeDeletion(DeleteChoice::KeepBranch));
    let Some(Effect::RemoveWorktree { id, remove, delete, .. }) = eff else {
        panic!("expected the removal to be handed over");
    };
    assert_eq!(id, (0, 1));
    assert_eq!(remove.args, vec!["worktree", "remove", "/Users/sebas/dev/grove-feat-sidebar"]);
    assert!(delete.is_none());
    assert!(app.ui.modal.is_none());
    let survivors = vec![app.repos[0].worktrees[0].clone(), app.repos[0].worktrees[2].clone()];
    app.apply_worktree_removed(id, survivors);
    assert!(app.repos[0].worktrees.iter().all(|w| w.branch_name() != Some("feat/sidebar")));
}

#[test]
fn regular_delete_succeeds_on_merged_branch() {
    let mut app = feature_fixture();
    app.open_confirm_remove_worktree_with((0, 1), true);
    let eff = app.update(AppMessage::ConfirmWorktreeDeletion(DeleteChoice::Delete));
    let Some(Effect::RemoveWorktree { delete: Some(d), .. }) = eff else {
        panic!("expected a branch deletion");
    };
    assert_eq!(d.branch, "feat/sidebar");
    assert!(!d.force);
    // The merge check was grove's; git is not asked to compare with the
    // branch's upstream, which may be behind.
    assert_eq!(d.command.args, vec!["branch", "-D", "feat/sidebar"]);
}

#[test]
fn regular_delete_on_unmerged_shows_inline_error_and_keeps_modal_open() {
    let mut app = feature_fixture();
    app.open_confirm_remove_worktree_with((0, 1), false);
    let eff = app.update(AppMessage::ConfirmWorktreeDeletion(DeleteChoice::Delete));
    assert!(eff.is_none());
    let Some(Modal::ConfirmRemoveWorktree { error, .. }) = &app.ui.modal else {
        panic!("expected modal still open");
    };
    let msg = error.as_deref().unwrap_or("");
    assert!(msg.contains("force-delete"), "message: {msg}");
    assert!(msg.to_lowercase().contains("d"));
    assert_eq!(app.repos[0].worktrees.len(), 3);
}

#[test]
fn force_delete_removes_unmerged_branch() {
    let mut app = feature_fixture();
    app.open_confirm_remove_worktree_with((0, 1), false);
    let eff = app.update(AppMessage::ConfirmWorktreeDeletion(DeleteChoice::ForceDelete));
    let Some(Effect::RemoveWorktree { delete: Some(d), .. }) = eff else {
        panic!("expected a branch deletion");
    };
    assert!(d.force);
    assert_eq!(d.command.args, vec!["branch", "-D", "feat/sidebar"]);
}

#[test]
fn reconcile_worktrees_picks_up_branch_switch_in_terminal() {
    let mut app = feature_fixture();
    assert_eq!(app.active_worktree_id(), Some((0, 1)));
    let mut relisted: Vec<Worktree> = app.repos[0].worktrees.iter().map(|w| w.clone()).collect();
    relisted[1].head = HeadRef::Branch("feat/renamed".to_string());
    app.reconcile_worktrees_with(0, relisted);
    assert_eq!(app.active_worktree_id(), Some((0, 1)));
    assert_eq!(app.repos[0].worktrees[1].branch_name(), Some("feat/renamed"));
}

#[test]
fn new_worktree_flow_builds_request_for_typed_name() {
    let mut app = feature_fixture();
    let eff = app.update(AppMessage::OpenNewWorktree);
    let Some(Effect::ListBranches { repo_idx, repo_root }) = eff else {
        panic!("expected the branches to be listed");
    };
    assert_eq!(repo_idx, 0);
    assert_eq!(repo_root, "/Users/sebas/dev/grove");
    app.open_new_worktree_with(0, vec![]);
    type_text(&mut app, "feat/new");
    let eff = app.update(AppMessage::SubmitModal);
    let Some(Effect::CreateWorktree { request, .. }) = eff else {
        panic!("expected a create request");
    };
    assert_eq!(request.repo_name, "grove");
    assert_eq!(request.base_branch, "main");
    match request.source {
        BranchSource::NewBranch(name) => assert_eq!(name, "feat/new"),
        other => panic!("unexpected source {other:?}"),
    }
}

#[test]
fn load_without_repositories_has_no_cursor() {
    let app: App = AppState::load(Config::default(), "/tmp/c.toml".to_string(), vec![], false);
    assert!(app.ui.cursor.is_none());
    assert!(app.repos.is_empty());
}

#[test]
fn scan_selection_lists_paths_to_add_and_stop_message() {
    let mut app = make_scanning_modal();
    app.apply_scan_results(
        vec!["/tmp/a".to_string(), "/tmp/b".to_string(), "/tmp/c".to_string()],
        vec!["/tmp/c".to_string()],
    );
    app.update(AppMessage::DiscoveredCursorDown);
    app.update(AppMessage::ToggleDiscoveredSelection);
    let Some(Modal::DiscoveredRepos(m)) = &app.ui.modal else {
        panic!("expected the scan dialog");
    };
    assert_eq!(m.paths_to_add(), vec!["/tmp/a"]);
    assert_eq!(
        grove::flows::stopped_message("/tmp/b", "not a git repository: /tmp/b", 1),
        "failed to add /tmp/b (not a git repository: /tmp/b); stopped after 1 repo"
    );
    assert_eq!(grove::flows::stopped_message("/x", "e", 0), "failed to add /x (e); stopped after 0 repos");
}

#[test]
fn main_pane_title_names_repo_and_branch() {
    let mut app = fixture();
    app.ui.cursor = Some(SidebarCursor::Repo(0));
    assert_eq!(grove::view::main_pane_title(&app), " grove ");
    app.ui.cursor = wt(1, 1);
    assert_eq!(grove::view::main_pane_title(&app), " dotfiles · wip/zsh ");
}

#[test]
fn update_is_allowed_only_with_a_listed_cursor() {
    let mut app = fixture();
    assert!(app.update_is_allowed(&AppMessage::MoveCursor(Direction::Down)));
    app.ui.cursor = Some(SidebarCursor::Repo(5));
    assert!(!app.update_is_allowed(&AppMessage::MoveCursor(Direction::Down)));
    app.ui.cursor = wt(0, 1);
    assert!(app.update_is_allowed(&AppMessage::ScrollUp));
}

#[test]
fn enter_on_remove_worktree_dialog_removes_and_keeps_the_branch() {
    let mut app = feature_fixture();
    app.open_confirm_remove_worktree_with((0, 1), true);
    let eff = app.update(AppMessage::SubmitModal);
    let Some(Effect::RemoveWorktree { id, repo_root, remove, delete }) = eff else {
        panic!("expected a worktree removal");
    };
    assert_eq!(id, (0, 1));
    assert_eq!(repo_root, "/Users/sebas/dev/grove");
    assert_eq!(remove.cwd, "/Users/sebas/dev/grove");
    assert_eq!(remove.args, vec!["worktree", "remove", "/Users/sebas/dev/grove-feat-sidebar"]);
    assert!(delete.is_none());
    assert!(app.ui.modal.is_none());
}

#[test]
fn enter_on_remove_worktree_dialog_refuses_the_primary_checkout() {
    let mut app = fixture();
    app.ui.modal = Some(Modal::ConfirmRemoveWorktree { id: (0, 0), variant: DeleteVariant::Merged, pr_number: None, error: None });
    let eff = app.update(AppMessage::SubmitModal);
    assert!(matches!(eff, Some(Effect::Warn(_))));
    assert!(app.ui.modal.is_none());
    // A dialog for a worktree that is gone does nothing.
    app.ui.modal = Some(Modal::ConfirmRemoveWorktree { id: (0, 9), variant: DeleteVariant::Merged, pr_number: None, error: None });
    assert!(app.update(AppMessage::SubmitModal).is_none());
    assert!(app.ui.modal.is_none());
}
