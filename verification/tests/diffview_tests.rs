use grove::diffview::{content_rows, file_row_spans, file_rows, FileRow};
use grove::git::{DeltaKind, DiffFile, DiffHunk, DiffLine, DiffLineKind};
use grove::view::{Span, Tone};

fn file(path: &str, staged: bool) -> DiffFile {
    DiffFile { path: path.to_string(), staged, adds: 0, dels: 0, kind: DeltaKind::Modified, hunks: Vec::new() }
}

fn texts(spans: &[Span]) -> Vec<(&str, Tone)> {
    spans.iter().map(|s| (s.text.as_str(), s.tone)).collect()
}

#[test]
fn empty_file_list_says_no_changes() {
    assert_eq!(file_rows(&Vec::new()), vec![FileRow::NoChanges]);
}

#[test]
fn unstaged_then_staged_get_headings_and_a_gap() {
    let files = vec![file("a", false), file("b", false), file("c", true)];
    assert_eq!(
        file_rows(&files),
        vec![
            FileRow::Unstaged,
            FileRow::File(0),
            FileRow::File(1),
            FileRow::Gap,
            FileRow::Staged,
            FileRow::File(2),
        ]
    );
}

#[test]
fn only_staged_files_get_no_gap() {
    let files = vec![file("a", true), file("b", true)];
    assert_eq!(file_rows(&files), vec![FileRow::Staged, FileRow::File(0), FileRow::File(1)]);
}

#[test]
fn file_row_shows_marker_glyph_path_and_counts() {
    let mut f = file("src/main.rs", false);
    f.adds = 12;
    f.dels = 3;
    f.kind = DeltaKind::Added;
    let v = file_row_spans(&f, true);
    assert_eq!(texts(&v), vec![("▸+ src/main.rs", Tone::Plain), ("  ", Tone::Plain), ("+12 -3", Tone::Dim)]);
    f.kind = DeltaKind::Renamed;
    let v = file_row_spans(&f, false);
    assert_eq!(v[0].text, " » src/main.rs");
}

#[test]
fn content_rows_show_scope_hunk_headers_and_lines() {
    let mut f = file("a.txt", true);
    f.hunks.push(DiffHunk {
        header: "@@ -1,2 +1,2 @@\n".to_string(),
        lines: vec![
            DiffLine { kind: DiffLineKind::Context, content: "same".to_string() },
            DiffLine { kind: DiffLineKind::Del, content: "old".to_string() },
            DiffLine { kind: DiffLineKind::Add, content: "new".to_string() },
        ],
    });
    let rows = content_rows(&f);
    assert_eq!(rows.len(), 6);
    assert_eq!(texts(&rows[0]), vec![("  a.txt", Tone::Bold), ("  ", Tone::Plain), ("[staged]", Tone::Scope)]);
    assert!(rows[1].is_empty());
    assert_eq!(texts(&rows[2]), vec![("  @@ -1,2 +1,2 @@", Tone::Dim)]);
    assert_eq!(texts(&rows[3]), vec![("   same", Tone::Plain)]);
    assert_eq!(texts(&rows[4]), vec![("  -old", Tone::Removed)]);
    assert_eq!(texts(&rows[5]), vec![("  +new", Tone::Added)]);
    f.staged = false;
    assert_eq!(content_rows(&f)[0][2].text, "[unstaged]");
}
