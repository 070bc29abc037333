use grove::app::AppState;
use grove::flows::{branch_in_use, local_name_attempt, random_slug};
use grove::git::{first_free_candidate, listed_worktree, merge_bases, merged_verdict, HeadInfo};
use grove::view::{add_repo_dialog, error_spans, Tone, ADD_REPO_DIALOG_WIDTH};

#[test]
fn first_free_candidate_skips_taken_paths() {
    assert_eq!(first_free_candidate("/d/origin", "repo", "feat/x", None, &vec![]), "/d/repo-feat-x");
    assert_eq!(first_free_candidate("/d/origin", "repo", "feat/x", None, &vec![true]), "/d/repo-feat-x-2");
    assert_eq!(first_free_candidate("/d/origin", "repo", "b", None, &vec![true, true, false, true]), "/d/repo-b-3");
    assert_eq!(first_free_candidate("/d/origin", "repo", "b", Some("/wt"), &vec![false]), "/wt/repo/b");
}

#[test]
fn local_name_attempt_needs_a_free_name_and_path() {
    let app: AppState<()> = AppState::fixture();
    let repo = &app.repos[0];
    assert_eq!(local_name_attempt(repo, "feat", "a1b2c3", false), Some("feat-a1b2c3".to_string()));
    assert_eq!(local_name_attempt(repo, "feat", "a1b2c3", true), None);
    // `fix/deps` is the branch of a worktree, so `fix-deps` style names
    // are only refused when a worktree is on exactly that name.
    assert!(branch_in_use(repo, "fix/deps"));
    assert_eq!(local_name_attempt(repo, "fix", "deps", false), Some("fix-deps".to_string()));
}

#[test]
fn random_slug_is_six_lower_hex_digits() {
    let s = random_slug();
    assert_eq!(s.len(), 6);
    assert!(s.chars().all(|c| c.is_ascii_digit() || ('a'..='f').contains(&c)));
}

#[test]
fn add_repo_dialog_grows_with_completions_and_errors() {
    let d = add_repo_dialog(0, None);
    assert_eq!(d.title, " Add repository ");
    assert_eq!(d.height, 8);
    assert_eq!(d.shown, 0);
    assert!(d.errors.is_empty());
    assert_eq!(d.hint, "  Enter to add  ·  Esc to cancel");
    let d = add_repo_dialog(14, Some("first\nsecond"));
    assert_eq!(d.shown, 10);
    assert_eq!(d.height, 8 + 11 + 2);
    assert_eq!(d.hint, "  ↑/↓ navigate  ·  Tab select  ·  Enter add  ·  Esc cancel");
    assert_eq!(d.errors[0].text, "  ! first");
    assert_eq!(d.errors[1].text, "    second");
    assert_eq!(d.errors[1].tone, Tone::Red);
    let errs = vec!["a".to_string(), "b".to_string()];
    assert_eq!(error_spans(&errs).len(), 2);
}

#[test]
fn pathologically_long_error_is_wrapped_and_ellipsized() {
    let err = "resolving path /a/very/long/absolute/path/that/definitely/\
               does/not/exist/anywhere/on/disk: No such file or directory \
               (os error 2)\nwhile loading repository metadata\nfrom git2 \
               backend";
    let d = add_repo_dialog(0, Some(err));
    // At most three error rows, each within the dialog's inner width.
    assert_eq!(d.errors.len(), 3);
    assert!(d.errors[0].text.starts_with("  ! "));
    assert!(d.errors.iter().all(|s| s.text.chars().count() <= ADD_REPO_DIALOG_WIDTH - 2));
    assert!(d.errors[2].text.ends_with('…'));
    assert_eq!(d.height, 8 + 3);
    assert!(d.hint.contains("Enter to add"));
}

#[test]
fn fixture_lists_the_documented_repositories() {
    let app: AppState<()> = AppState::fixture();
    assert_eq!(app.repos[0].name, "grove");
    assert_eq!(app.repos[0].root_path, "/Users/sebas/dev/grove");
    assert_eq!(app.repos[0].worktrees[2].path, "/Users/sebas/dev/grove-fix-deps");
    assert_eq!(app.repos[1].worktrees[1].head.label(), "wip/zsh");
    assert!(app.repos[1].worktrees[0].is_primary);
    assert_eq!(app.config_path, "/tmp/grove-fixture-config.toml");
}

#[test]
fn listed_worktree_keeps_branches_and_a_detached_primary() {
    let w = listed_worktree("/r".to_string(), HeadInfo::Branch("main".to_string()), true).unwrap();
    assert_eq!(w.head.label(), "main");
    let w = listed_worktree("/r".to_string(), HeadInfo::Detached("0123456789abcdef".to_string()), true).unwrap();
    assert_eq!(w.head.label(), "(detached) 0123456");
    // A linked worktree on a detached HEAD is listed too, by its short id.
    let w = listed_worktree("/r2".to_string(), HeadInfo::Detached("89abcdef0123".to_string()), false).unwrap();
    assert_eq!(w.path, "/r2");
    assert!(!w.is_primary);
    assert!(matches!(&w.head, grove::model::HeadRef::Detached(id) if id == "89abcde"));
    assert_eq!(w.label(), "(detached) 89abcde");
    assert!(listed_worktree("/r3".to_string(), HeadInfo::Unreadable, true).is_none());
}

#[test]
fn fresh_branch_off_local_main_counts_as_merged_when_origin_is_behind() {
    let (remote, local) = merge_bases("main");
    assert_eq!(remote, "origin/main");
    assert_eq!(local, "main");
    // origin/main is behind (the branch is not in it), local main is at the branch's tip.
    assert!(merged_verdict(Some(false), Some(true)));
    assert!(merged_verdict(Some(true), None));
    assert!(!merged_verdict(Some(false), Some(false)));
    assert!(!merged_verdict(None, None));
}
