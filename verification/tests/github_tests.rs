use grove::github::{any_github_remote, checks_rollup, parse_owner_repo, pr_state_of, pr_status, wants_checks};
use grove::model::{ChecksRollup, PrState};

#[test]
fn parses_ssh_shortcut() {
    let got = parse_owner_repo("git@github.com:sebasv/grove.git").unwrap();
    assert_eq!(got.owner, "sebasv");
    assert_eq!(got.repo, "grove");
}

#[test]
fn parses_https_with_git_suffix() {
    let got = parse_owner_repo("https://github.com/sebasv/grove.git").unwrap();
    assert_eq!(got.owner, "sebasv");
    assert_eq!(got.repo, "grove");
}

#[test]
fn parses_https_without_git_suffix() {
    let got = parse_owner_repo("https://github.com/sebasv/grove").unwrap();
    assert_eq!(got.owner, "sebasv");
    assert_eq!(got.repo, "grove");
}

#[test]
fn parses_ssh_scheme() {
    let got = parse_owner_repo("ssh://git@github.com/sebasv/grove.git").unwrap();
    assert_eq!(got.owner, "sebasv");
    assert_eq!(got.repo, "grove");
}

#[test]
fn rejects_non_github_remote() {
    assert!(parse_owner_repo("git@gitlab.com:a/b.git").is_none());
    assert!(parse_owner_repo("file:///tmp/repo").is_none());
}

#[test]
fn parse_trims_and_drops_trailing_slashes() {
    let got = parse_owner_repo("  https://github.com/o/r.git/  \n").unwrap();
    assert_eq!(got.owner, "o");
    assert_eq!(got.repo, "r");
    let nested = parse_owner_repo("https://github.com/o/r/extra").unwrap();
    assert_eq!(nested.repo, "r/extra");
}

#[test]
fn parse_rejects_missing_parts() {
    assert!(parse_owner_repo("https://github.com/owner").is_none());
    assert!(parse_owner_repo("https://github.com//repo").is_none());
    assert!(parse_owner_repo("https://github.com/owner/").is_none());
    assert!(parse_owner_repo("").is_none());
}

#[test]
fn any_github_remote_needs_one_github_origin() {
    assert!(!any_github_remote(&vec![None, Some("git@gitlab.com:a/b.git".to_string())]));
    assert!(any_github_remote(&vec![None, Some("git@github.com:a/b.git".to_string())]));
    assert!(!any_github_remote(&Vec::new()));
}

#[test]
fn pr_state_precedence() {
    assert_eq!(pr_state_of(true, true, Some(true)), PrState::Merged);
    assert_eq!(pr_state_of(false, true, Some(true)), PrState::Closed);
    assert_eq!(pr_state_of(false, false, Some(true)), PrState::Draft);
    assert_eq!(pr_state_of(false, false, None), PrState::Open);
    assert!(wants_checks(PrState::Draft));
    assert!(!wants_checks(PrState::Merged));
}

fn run(status: &str, conclusion: &str) -> (String, String) {
    (status.to_string(), conclusion.to_string())
}

#[test]
fn checks_rollup_prefers_failure_then_pending() {
    assert_eq!(checks_rollup(None), ChecksRollup::NoChecks);
    assert_eq!(checks_rollup(Some(&Vec::new())), ChecksRollup::NoChecks);
    let passing = vec![run("completed", "success"), run("completed", "skipped"), run("completed", "neutral")];
    assert_eq!(checks_rollup(Some(&passing)), ChecksRollup::Passing);
    let pending = vec![run("completed", "success"), run("in_progress", "")];
    assert_eq!(checks_rollup(Some(&pending)), ChecksRollup::Pending);
    let no_conclusion = vec![run("completed", "")];
    assert_eq!(checks_rollup(Some(&no_conclusion)), ChecksRollup::Pending);
    let failing = vec![run("queued", ""), run("completed", "failure")];
    assert_eq!(checks_rollup(Some(&failing)), ChecksRollup::Failing);
}

#[test]
fn pr_status_cuts_number_to_32_bits() {
    let p = pr_status(42, PrState::Open, ChecksRollup::Passing);
    assert_eq!(p.number, 42);
    let q = pr_status((1u64 << 32) + 7, PrState::Closed, ChecksRollup::NoChecks);
    assert_eq!(q.number, 7);
    assert_eq!(q.state, PrState::Closed);
}
