use grove::git::BranchEntry;
use grove::model::{ChecksRollup, PrState, PrStatus, WorktreeStatus};
use grove::modals::NewWorktreeModal;
use grove::text::truncate_to_width;
use grove::view::{badge_spans, badge_width, worktree_line, Span, Tone};
use grove::wrap::wrap_message;

fn flatten(spans: &[Span]) -> String {
    spans.iter().map(|s| s.text.as_str()).collect()
}

fn status() -> WorktreeStatus {
    WorktreeStatus::zero()
}

fn branch(name: &str, remote: Option<&str>) -> BranchEntry {
    BranchEntry { name: name.to_string(), remote: remote.map(str::to_string) }
}

#[test]
fn truncate_to_width_short_passes_through() {
    assert_eq!(truncate_to_width("hello", 10), "hello");
}

#[test]
fn truncate_to_width_long_ellipsizes() {
    assert_eq!(truncate_to_width("hello world", 6), "hello…");
}

#[test]
fn truncate_to_width_zero_returns_empty() {
    assert_eq!(truncate_to_width("hello", 0), "");
}

#[test]
fn truncate_to_width_exact_fit_is_untouched() {
    assert_eq!(truncate_to_width("hello", 5), "hello");
    assert_eq!(truncate_to_width("héllo", 4), "hél…");
    assert_eq!(truncate_to_width("hello", 1), "…");
}

#[test]
fn wrap_message_fits_in_one_line() {
    assert_eq!(wrap_message("short err", 40, 3), vec!["short err"]);
}

#[test]
fn wrap_message_breaks_on_word_boundary() {
    let lines = wrap_message("the quick brown fox jumps over", 12, 3);
    assert_eq!(lines, vec!["the quick", "brown fox", "jumps over"]);
}

#[test]
fn wrap_message_ellipsizes_when_over_max_lines() {
    let lines = wrap_message("aaa bbb ccc ddd eee fff ggg hhh", 4, 2);
    assert_eq!(lines.len(), 2);
    assert!(lines.last().unwrap().ends_with('…'));
    for l in &lines {
        assert!(l.chars().count() <= 4, "line {l:?} exceeds width");
    }
}

#[test]
fn wrap_message_hard_breaks_words_longer_than_width() {
    let lines = wrap_message("/an/extremely/long/absolute/path", 10, 3);
    assert!(!lines.is_empty());
    for l in &lines {
        assert!(l.chars().count() <= 10);
    }
}

#[test]
fn wrap_message_honors_embedded_newlines() {
    let lines = wrap_message("first line\nsecond line", 40, 3);
    assert_eq!(lines, vec!["first line", "second line"]);
}

#[test]
fn wrap_message_zero_args_return_empty() {
    assert_eq!(wrap_message("anything", 0, 3), Vec::<String>::new());
    assert_eq!(wrap_message("anything", 10, 0), Vec::<String>::new());
}

#[test]
fn wrap_message_exact_lines_of_hard_break_and_blank_runs() {
    assert_eq!(
        wrap_message("/an/extremely/long/absolute/path", 10, 3),
        vec!["/an/extrem", "ely/long/a", "bsolute/p…"]
    );
    assert_eq!(wrap_message("a\n\n\nb", 10, 5), vec!["a", "", "b"]);
    assert_eq!(wrap_message("aaa bbb ccc ddd", 4, 2), vec!["aaa", "bbb…"]);
    assert_eq!(wrap_message("ab cd", 5, 1), vec!["ab cd"]);
    assert_eq!(wrap_message("ab cd ef", 5, 1), vec!["ab c…"]);
}

#[test]
fn clean_renders_check_mark() {
    let spans = badge_spans(&status());
    assert_eq!(flatten(&spans), "✓");
}

#[test]
fn staged_and_modified_combine() {
    let s = WorktreeStatus { staged: 3, modified: 2, ..status() };
    assert_eq!(flatten(&badge_spans(&s)), "+3 ~2");
}

#[test]
fn conflict_comes_first() {
    let s = WorktreeStatus { conflicts: 1, modified: 2, ahead: 1, ..status() };
    assert_eq!(flatten(&badge_spans(&s)), "⚠ ~2 ↑1");
}

#[test]
fn ahead_behind_only() {
    let s = WorktreeStatus { ahead: 1, behind: 2, ..status() };
    assert_eq!(flatten(&badge_spans(&s)), "↑1 ↓2");
}

#[test]
fn badge_width_sums_characters() {
    let spans = badge_spans(&WorktreeStatus { staged: 10, ahead: 2, ..status() });
    assert_eq!(badge_width(&spans), 6);
}

#[test]
fn badges_carry_their_tones() {
    let spans = badge_spans(&WorktreeStatus { conflicts: 2, deleted: 4, ..status() });
    let tones: Vec<Tone> = spans.iter().map(|s| s.tone).collect();
    assert_eq!(flatten(&spans), "⚠ -4");
    assert_eq!(tones, vec![Tone::Red, Tone::Plain, Tone::Red]);
}

#[test]
fn worktree_row_pads_badges_to_the_sidebar_edge() {
    let spans = worktree_line(true, false, "main", Some(&status()), None);
    let text = flatten(&spans);
    assert_eq!(text, format!("▸  ● main{}✓", " ".repeat(22)));
    assert_eq!(text.chars().count(), 32);
}

#[test]
fn worktree_row_truncates_long_branch_with_badges() {
    let long = "feature/a-very-long-branch-name-that-goes-on";
    let s = WorktreeStatus { staged: 1, ..status() };
    let pr = PrStatus { number: 7, state: PrState::Open, checks: ChecksRollup::Passing };
    let spans = worktree_line(false, true, long, Some(&s), Some(&pr));
    let text = flatten(&spans);
    assert!(text.starts_with("   ○ feature/"));
    assert!(text.contains('…'));
    assert!(text.ends_with("+1 ●"));
}

#[test]
fn new_worktree_modal_total_rows_is_create_plus_matches() {
    let m = NewWorktreeModal::for_repo(0, vec![branch("main", None), branch("feat/x", None)]);
    assert_eq!(m.total_rows(), 3);
    assert_eq!(m.cursor, 0);
}

#[test]
fn recompute_filter_is_case_insensitive_substring_and_resets_cursor() {
    let mut m = NewWorktreeModal::for_repo(
        0,
        vec![
            branch("main", None),
            branch("feat/Search", None),
            branch("fix/typo", None),
            branch("search-ui", Some("origin")),
        ],
    );
    m.cursor = 2;
    for c in "search".chars() {
        m.input.insert_char(c);
    }
    m.recompute_filter();
    assert_eq!(m.filter_matches.len(), 2);
    assert_eq!(m.cursor, 0);
}

#[test]
fn selected_branch_returns_none_when_cursor_on_create_row() {
    let m = NewWorktreeModal::for_repo(0, vec![branch("main", None)]);
    assert_eq!(m.cursor, 0);
    assert!(m.selected_branch().is_none());
}

#[test]
fn selected_branch_returns_entry_at_filter_cursor() {
    let mut m = NewWorktreeModal::for_repo(0, vec![branch("main", None), branch("feat/x", None)]);
    m.cursor = 2;
    let got = m.selected_branch().unwrap();
    assert_eq!(got.name, "feat/x");
}

#[test]
fn filter_matches_remote_prefix_and_lists_indices() {
    let mut m = NewWorktreeModal::for_repo(
        1,
        vec![branch("main", None), branch("dev", Some("upstream")), branch("Dev-2", None)],
    );
    for c in "DEV".chars() {
        m.input.insert_char(c);
    }
    m.recompute_filter();
    assert_eq!(m.filter_matches, vec![1, 2]);
    m.cursor = 1;
    assert_eq!(m.selected_branch().unwrap().display(), "upstream/dev");
    m.cursor = 3;
    assert!(m.selected_branch().is_none());
}

fn views(spans: &[Span]) -> Vec<(String, Tone)> {
    spans.iter().map(|s| (s.text.clone(), s.tone)).collect()
}

#[test]
fn new_worktree_rows_start_with_create_row_and_mark_remote_branches() {
    let mut m = NewWorktreeModal::for_repo(0, vec![branch("main", None), branch("dev", Some("origin"))]);
    let rows = grove::view::new_worktree_rows(&m);
    assert_eq!(rows.len(), 3);
    assert_eq!(
        views(&rows[0]),
        vec![("Create new branch ".to_string(), Tone::Plain), ("(type a name)".to_string(), Tone::Dim)]
    );
    assert_eq!(views(&rows[1]), vec![("main".to_string(), Tone::Plain)]);
    assert_eq!(
        views(&rows[2]),
        vec![("origin/dev".to_string(), Tone::Plain), (" [remote]".to_string(), Tone::Dim)]
    );
    for c in "de".chars() {
        m.input.insert_char(c);
    }
    m.recompute_filter();
    let rows = grove::view::new_worktree_rows(&m);
    assert_eq!(rows.len(), 2);
    assert_eq!(views(&rows[0])[1], ("de".to_string(), Tone::Plain));
}

#[test]
fn new_worktree_title_is_cut_to_the_dialog() {
    assert_eq!(grove::view::new_worktree_title("grove"), " New worktree in grove ");
    let long = "r".repeat(80);
    let t = grove::view::new_worktree_title(&long);
    assert_eq!(t.chars().count(), 66);
    assert!(t.ends_with('…'));
}

#[test]
fn input_spans_put_the_cursor_cell_in_reverse() {
    let mut m = NewWorktreeModal::for_repo(0, Vec::new());
    assert_eq!(views(&m.input.spans()), vec![(" ".to_string(), Tone::Cursor)]);
    for c in "abc".chars() {
        m.input.insert_char(c);
    }
    m.input.move_left();
    m.input.move_left();
    assert_eq!(
        views(&m.input.spans()),
        vec![("a".to_string(), Tone::Plain), ("b".to_string(), Tone::Cursor), ("c".to_string(), Tone::Plain)]
    );
}

#[test]
fn wrapped_messages_have_no_blank_runs_and_mark_overflow() {
    let lines = wrap_message("a\n\n\n\nb\n\n", 10, 5);
    assert_eq!(lines, vec!["a".to_string(), String::new(), "b".to_string()]);
    let lines = wrap_message("one two three four five six", 5, 2);
    assert_eq!(lines.len(), 2);
    assert!(lines[1].ends_with('…'));
    assert!(wrap_message("\n\nx", 10, 3)[0] == "x");
}
