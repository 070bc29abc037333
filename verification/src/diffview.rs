//! The text of the diff view: the file list on the left, grouped into
//! unstaged and staged files, and the lines of the selected file.

use vstd::prelude::*;

use crate::git::{DeltaKind, DiffFile, DiffHunk, DiffLine, DiffLineKind};
use crate::text::{decimal, push_char, push_decimal, push_str_chars, spec_trim_end, string_of, trim_end};
use crate::view::{rows_views, span_views, Span, Tone};

verus! {

/// One row of the diff view's file list.
#[derive(Debug, Clone, Copy, PartialEq, Eq, Structural)]
pub enum FileRow {
    /// There are no files: the list says "No local changes".
    NoChanges,
    /// The heading over the unstaged files.
    Unstaged,
    /// The heading over the staged files.
    Staged,
    /// A blank row between the unstaged and the staged files.
    Gap,
    /// The file at this index of the list.
    File(usize),
}

/// Whether each file is staged, in list order.
pub open spec fn staged_flags(files: Seq<DiffFile>) -> Seq<bool> {
    files.map_values(|f: DiffFile| f.staged)
}

/// Some file before position `n` has staged flag `flag`.
pub open spec fn any_with(staged: Seq<bool>, flag: bool, n: int) -> bool {
    exists|j: int| 0 <= j < n && #[trigger] staged[j] == flag
}

/// The rows that come before file `i`: the heading of its group when it is
/// the first of that group, with a blank row before the staged heading
/// when unstaged files were listed above.
pub open spec fn heading_rows(staged: Seq<bool>, i: int) -> Seq<FileRow> {
    if !staged[i] {
        if any_with(staged, false, i) {
            Seq::empty()
        } else {
            seq![FileRow::Unstaged]
        }
    } else if any_with(staged, true, i) {
        Seq::empty()
    } else if any_with(staged, false, i) {
        seq![FileRow::Gap, FileRow::Staged]
    } else {
        seq![FileRow::Staged]
    }
}

/// The rows of the first `n` files.
pub open spec fn rows_upto(staged: Seq<bool>, n: nat) -> Seq<FileRow>
    decreases n,
{
    if n == 0 {
        Seq::empty()
    } else {
        rows_upto(staged, (n - 1) as nat) + heading_rows(staged, n - 1) + seq![
            FileRow::File((n - 1) as usize),
        ]
    }
}

/// The rows of the file list.
pub open spec fn spec_file_rows(staged: Seq<bool>) -> Seq<FileRow> {
    if staged.len() == 0 {
        seq![FileRow::NoChanges]
    } else {
        rows_upto(staged, staged.len())
    }
}

/// The rows of the diff view's file list, in order.
pub fn file_rows(files: &Vec<DiffFile>) -> (v: Vec<FileRow>)
    ensures
        v@ == spec_file_rows(staged_flags(files@)),
{
    let ghost st = staged_flags(files@);
    let mut v: Vec<FileRow> = Vec::new();
    if files.len() == 0 {
        v.push(FileRow::NoChanges);
        assert(v@ =~= spec_file_rows(st));
        return v;
    }
    let mut seen_unstaged = false;
    let mut seen_staged = false;
    let mut i: usize = 0;
    while i < files.len()
        invariant
            i <= files@.len(),
            st == staged_flags(files@),
            v@ == rows_upto(st, i as nat),
            seen_unstaged == any_with(st, false, i as int),
            seen_staged == any_with(st, true, i as int),
        decreases files@.len() - i,
    {
        let s = files[i].staged;
        assert(st[i as int] == s);
        let ghost before = v@;
        if !s {
            if !seen_unstaged {
                v.push(FileRow::Unstaged);
            }
        } else if !seen_staged {
            if seen_unstaged {
                v.push(FileRow::Gap);
            }
            v.push(FileRow::Staged);
        }
        assert(v@ =~= before + heading_rows(st, i as int));
        v.push(FileRow::File(i));
        proof {
            let k = i as int;
            if !s {
                assert(any_with(st, false, k + 1));
            } else {
                assert(any_with(st, true, k + 1));
            }
            assert(any_with(st, false, k + 1) == (seen_unstaged || !s)) by {
                if any_with(st, false, k + 1) && !s == false {
                    let j = choose|j: int| 0 <= j < k + 1 && #[trigger] st[j] == false;
                    assert(j != k);
                }
            }
            assert(any_with(st, true, k + 1) == (seen_staged || s)) by {
                if any_with(st, true, k + 1) && !s {
                    let j = choose|j: int| 0 <= j < k + 1 && #[trigger] st[j] == true;
                    assert(j != k);
                }
            }
        }
        if s {
            seen_staged = true;
        } else {
            seen_unstaged = true;
        }
        i += 1;
    }
    v
}

/// The glyph that marks how a file changed.
pub open spec fn delta_glyph(k: DeltaKind) -> char {
    match k {
        DeltaKind::Added => '+',
        DeltaKind::Modified => '~',
        DeltaKind::Deleted => '-',
        DeltaKind::Renamed => '»',
        DeltaKind::Other => ' ',
    }
}

fn delta_glyph_exec(k: DeltaKind) -> (c: char)
    ensures
        c == delta_glyph(k),
{
    match k {
        DeltaKind::Added => '+',
        DeltaKind::Modified => '~',
        DeltaKind::Deleted => '-',
        DeltaKind::Renamed => '»',
        DeltaKind::Other => ' ',
    }
}

/// A file's row: the cursor marker (when the list has focus), the glyph
/// and the path, then its added and deleted line counts, dimmed.
pub open spec fn spec_file_row_spans(f: DiffFile, marked: bool) -> Seq<(Seq<char>, Tone)> {
    seq![
        (seq![if marked { '▸' } else { ' ' }, delta_glyph(f.kind), ' '] + f.path@, Tone::Plain),
        (seq![' ', ' '], Tone::Plain),
        (seq!['+'] + decimal(f.adds as nat) + seq![' ', '-'] + decimal(f.dels as nat), Tone::Dim),
    ]
}

/// The spans of a file's row; `marked` when it is under the cursor and
/// the file list has focus.
pub fn file_row_spans(f: &DiffFile, marked: bool) -> (v: Vec<Span>)
    ensures
        span_views(v@) == spec_file_row_spans(*f, marked),
{
    let mut name = String::new();
    push_char(&mut name, if marked { '▸' } else { ' ' });
    push_char(&mut name, delta_glyph_exec(f.kind));
    push_char(&mut name, ' ');
    push_str_chars(&mut name, f.path.as_str());
    let mut gap = String::new();
    push_char(&mut gap, ' ');
    push_char(&mut gap, ' ');
    let mut counts = String::new();
    push_char(&mut counts, '+');
    push_decimal(&mut counts, f.adds as usize);
    push_char(&mut counts, ' ');
    push_char(&mut counts, '-');
    push_decimal(&mut counts, f.dels as usize);
    let mut v: Vec<Span> = Vec::new();
    v.push(Span { text: name, tone: Tone::Plain });
    v.push(Span { text: gap, tone: Tone::Plain });
    v.push(Span { text: counts, tone: Tone::Dim });
    assert(span_views(v@)[0].0 =~= spec_file_row_spans(*f, marked)[0].0);
    assert(span_views(v@)[1].0 =~= spec_file_row_spans(*f, marked)[1].0);
    assert(span_views(v@)[2].0 =~= spec_file_row_spans(*f, marked)[2].0);
    assert(span_views(v@) =~= spec_file_row_spans(*f, marked));
    v
}

/// The first character of a diff line: `+`, `-` or a space.
pub open spec fn line_prefix(k: DiffLineKind) -> char {
    match k {
        DiffLineKind::Add => '+',
        DiffLineKind::Del => '-',
        DiffLineKind::Context => ' ',
    }
}

/// Added lines are drawn green, deleted ones red, context plain.
pub open spec fn line_tone(k: DiffLineKind) -> Tone {
    match k {
        DiffLineKind::Add => Tone::Added,
        DiffLineKind::Del => Tone::Removed,
        DiffLineKind::Context => Tone::Plain,
    }
}

/// The row of one diff line, indented by two columns.
pub open spec fn line_row(l: DiffLine) -> Seq<(Seq<char>, Tone)> {
    seq![(seq![' ', ' ', line_prefix(l.kind)] + l.content@, line_tone(l.kind))]
}

/// A hunk's rows: its header (without trailing whitespace), dimmed, then
/// its lines.
pub open spec fn hunk_rows(h: DiffHunk) -> Seq<Seq<(Seq<char>, Tone)>> {
    seq![seq![(seq![' ', ' '] + spec_trim_end(h.header@), Tone::Dim)]] + h.lines@.map_values(
        |l: DiffLine| line_row(l),
    )
}

/// The rows of the first `n` hunks.
pub open spec fn hunks_rows(hs: Seq<DiffHunk>, n: nat) -> Seq<Seq<(Seq<char>, Tone)>>
    decreases n,
{
    if n == 0 {
        Seq::empty()
    } else {
        hunks_rows(hs, (n - 1) as nat) + hunk_rows(hs[n - 1])
    }
}

/// `[staged]` or `[unstaged]`.
pub open spec fn scope_label(staged: bool) -> Seq<char> {
    if staged {
        seq!['[', 's', 't', 'a', 'g', 'e', 'd', ']']
    } else {
        seq!['[', 'u', 'n', 's', 't', 'a', 'g', 'e', 'd', ']']
    }
}

/// The selected file's rows: its path in bold with its scope, a blank
/// row, then every hunk.
pub open spec fn spec_content_rows(f: DiffFile) -> Seq<Seq<(Seq<char>, Tone)>> {
    seq![
        seq![
            (seq![' ', ' '] + f.path@, Tone::Bold),
            (seq![' ', ' '], Tone::Plain),
            (scope_label(f.staged), Tone::Scope),
        ],
        Seq::empty(),
    ] + hunks_rows(f.hunks@, f.hunks@.len())
}

fn indented(prefix: Option<char>, body: &str) -> (s: String)
    ensures
        s@ == seq![' ', ' '] + (match prefix {
            Some(c) => seq![c],
            None => Seq::empty(),
        }) + body@,
{
    let mut s = String::new();
    push_char(&mut s, ' ');
    push_char(&mut s, ' ');
    match prefix {
        Some(c) => push_char(&mut s, c),
        None => {},
    }
    push_str_chars(&mut s, body);
    s
}

fn line_prefix_exec(k: DiffLineKind) -> (c: char)
    ensures
        c == line_prefix(k),
{
    match k {
        DiffLineKind::Add => '+',
        DiffLineKind::Del => '-',
        DiffLineKind::Context => ' ',
    }
}

fn line_tone_exec(k: DiffLineKind) -> (t: Tone)
    ensures
        t == line_tone(k),
{
    match k {
        DiffLineKind::Add => Tone::Added,
        DiffLineKind::Del => Tone::Removed,
        DiffLineKind::Context => Tone::Plain,
    }
}

fn push_hunk_rows(h: &DiffHunk, rows: &mut Vec<Vec<Span>>)
    ensures
        rows_views(final(rows)@) == rows_views(old(rows)@) + hunk_rows(*h),
{
    let ghost start = rows_views(rows@);
    let header = trim_end(h.header.as_str());
    let mut first: Vec<Span> = Vec::new();
    first.push(Span { text: indented(None, header.as_str()), tone: Tone::Dim });
    assert(span_views(first@) =~= seq![(seq![' ', ' '] + spec_trim_end(h.header@), Tone::Dim)]);
    rows.push(first);
    let ghost lines = h.lines@.map_values(|l: DiffLine| line_row(l));
    assert(rows_views(rows@) =~= start + seq![seq![(seq![' ', ' '] + spec_trim_end(h.header@), Tone::Dim)]]);
    let mut i: usize = 0;
    while i < h.lines.len()
        invariant
            i <= h.lines@.len(),
            lines == h.lines@.map_values(|l: DiffLine| line_row(l)),
            rows_views(rows@) == start + seq![seq![(seq![' ', ' '] + spec_trim_end(h.header@), Tone::Dim)]]
                + lines.subrange(0, i as int),
        decreases h.lines@.len() - i,
    {
        let l = &h.lines[i];
        let mut row: Vec<Span> = Vec::new();
        row.push(Span { text: indented(Some(line_prefix_exec(l.kind)), l.content.as_str()), tone: line_tone_exec(l.kind) });
        assert(row@[0].text@ =~= seq![' ', ' ', line_prefix(l.kind)] + l.content@);
        assert(span_views(row@) =~= line_row(*l));
        let ghost prev = rows@;
        rows.push(row);
        assert(rows_views(rows@) =~= rows_views(prev).push(line_row(*l)));
        assert(lines[i as int] == line_row(h.lines@[i as int]));
        assert(lines.subrange(0, i + 1) =~= lines.subrange(0, i as int).push(lines[i as int]));
        i += 1;
        assert(rows_views(rows@) =~= start + seq![seq![(seq![' ', ' '] + spec_trim_end(h.header@), Tone::Dim)]]
            + lines.subrange(0, i as int));
    }
    assert(lines.subrange(0, h.lines@.len() as int) =~= lines);
    assert(rows_views(rows@) =~= start + hunk_rows(*h));
}

/// The rows of the selected file's diff.
pub fn content_rows(f: &DiffFile) -> (v: Vec<Vec<Span>>)
    ensures
        rows_views(v@) == spec_content_rows(*f),
{
    let mut v: Vec<Vec<Span>> = Vec::new();
    let mut title: Vec<Span> = Vec::new();
    title.push(Span { text: indented(None, f.path.as_str()), tone: Tone::Bold });
    title.push(Span { text: string_of("  "), tone: Tone::Plain });
    let scope = if f.staged {
        string_of("[staged]")
    } else {
        string_of("[unstaged]")
    };
    proof {
        reveal_strlit("  ");
        reveal_strlit("[staged]");
        reveal_strlit("[unstaged]");
    }
    title.push(Span { text: scope, tone: Tone::Scope });
    assert(title@[0].text@ =~= seq![' ', ' '] + f.path@);
    assert(title@[1].text@ =~= seq![' ', ' ']);
    assert(title@[2].text@ =~= scope_label(f.staged));
    assert(span_views(title@) =~= seq![
        (seq![' ', ' '] + f.path@, Tone::Bold),
        (seq![' ', ' '], Tone::Plain),
        (scope_label(f.staged), Tone::Scope),
    ]);
    v.push(title);
    let empty: Vec<Span> = Vec::new();
    assert(span_views(empty@) =~= Seq::<(Seq<char>, Tone)>::empty());
    v.push(empty);
    let ghost head = seq![
        seq![
            (seq![' ', ' '] + f.path@, Tone::Bold),
            (seq![' ', ' '], Tone::Plain),
            (scope_label(f.staged), Tone::Scope),
        ],
        Seq::<(Seq<char>, Tone)>::empty(),
    ];
    assert(rows_views(v@) =~= head);
    let mut k: usize = 0;
    while k < f.hunks.len()
        invariant
            k <= f.hunks@.len(),
            rows_views(v@) == head + hunks_rows(f.hunks@, k as nat),
        decreases f.hunks@.len() - k,
    {
        push_hunk_rows(&f.hunks[k], &mut v);
        k += 1;
        assert(head + hunks_rows(f.hunks@, k as nat) =~= head + hunks_rows(f.hunks@, (k - 1) as nat)
            + hunk_rows(f.hunks@[k - 1]));
    }
    v
}

} // verus!
