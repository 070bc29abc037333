//! The text of the scan dialog: the repositories found below a path, a
//! window of them around the cursor, and how many are selected.

use vstd::prelude::*;

use crate::modals::{DiscoveredRepo, DiscoveredReposModal};
use crate::text::{decimal, push_char, push_decimal, push_str_chars, spec_truncate, string_of, truncate_to_width};
use crate::view::{dialog_error, error_rows, rows_views, span_views, wrapped_error, Span, Tone};

verus! {

/// Width of the scan dialog.
pub const SCAN_DIALOG_WIDTH: usize = 72;

/// Rows of the candidate list the scan dialog shows at once.
pub const SCAN_VISIBLE_ROWS: usize = 10;

/// How many of the first `n` candidates are selected.
pub open spec fn count_selected(cs: Seq<DiscoveredRepo>, n: nat) -> nat
    decreases n,
{
    if n == 0 {
        0
    } else {
        count_selected(cs, (n - 1) as nat) + if cs[n - 1].selected {
            1nat
        } else {
            0nat
        }
    }
}

proof fn lemma_count_selected_le(cs: Seq<DiscoveredRepo>, n: nat)
    ensures
        count_selected(cs, n) <= n,
    decreases n,
{
    if n > 0 {
        lemma_count_selected_le(cs, (n - 1) as nat);
    }
}

/// The first candidate shown: the window of `visible` rows follows the
/// cursor down and never runs past the end of the list.
pub open spec fn spec_scroll_offset(cursor: nat, len: nat, visible: nat) -> nat {
    let follow: nat = if cursor >= visible - 1 { (cursor - (visible - 1)) as nat } else { 0 };
    let last: nat = if len >= visible { (len - visible) as nat } else { 0 };
    if follow <= last {
        follow
    } else {
        last
    }
}

/// The index of the first row to show of a list of `len` rows, `visible`
/// at a time, with the cursor on row `cursor`.
pub fn scroll_offset(cursor: usize, len: usize, visible: usize) -> (o: usize)
    requires
        visible >= 1,
    ensures
        o == spec_scroll_offset(cursor as nat, len as nat, visible as nat),
{
    let follow = if cursor >= visible - 1 {
        cursor - (visible - 1)
    } else {
        0
    };
    let last = if len >= visible {
        len - visible
    } else {
        0
    };
    if follow <= last {
        follow
    } else {
        last
    }
}

/// ` Scan: <root> `, cut to the dialog's inner width less two columns.
pub open spec fn spec_scan_title(root: Seq<char>) -> Seq<char> {
    spec_truncate(seq![' ', 'S', 'c', 'a', 'n', ':', ' '] + root + seq![' '], 68)
}

/// `  <selected> of <total> selected.  Space to toggle.`
pub open spec fn spec_scan_header(selected: nat, total: nat) -> Seq<char> {
    seq![' ', ' '] + decimal(selected) + seq![' ', 'o', 'f', ' '] + decimal(total) + seq![
        ' ',
        's',
        'e',
        'l',
        'e',
        'c',
        't',
        'e',
        'd',
        '.',
        ' ',
        ' ',
        'S',
        'p',
        'a',
        'c',
        'e',
        ' ',
        't',
        'o',
        ' ',
        't',
        'o',
        'g',
        'g',
        'l',
        'e',
        '.',
    ]
}

/// A candidate's row: the cursor marker, its checkbox, its name (dim
/// when it is configured already, bold under the cursor), its path
/// dimmed, and a dimmed tag when it is configured already.
pub open spec fn spec_candidate_row(c: DiscoveredRepo, is_cursor: bool) -> Seq<(Seq<char>, Tone)> {
    seq![
        (if is_cursor { seq!['▶', ' '] } else { seq![' ', ' '] }, Tone::Plain),
        (if c.selected { seq!['[', 'x', ']'] } else { seq!['[', ' ', ']'] }, Tone::Plain),
        (seq![' '], Tone::Plain),
        (c.name@, if c.already_configured { Tone::DarkGray } else if is_cursor { Tone::Bold } else { Tone::Plain }),
        (seq![' ', ' '], Tone::Plain),
        (c.path@, Tone::DarkGray),
    ] + if c.already_configured {
        seq![
            (seq![' ', '[', 'a', 'l', 'r', 'e', 'a', 'd', 'y', ' ', 'c', 'o', 'n', 'f', 'i', 'g', 'u', 'r', 'e', 'd', ']'], Tone::DarkGray),
        ]
    } else {
        Seq::empty()
    }
}

/// The rows shown, candidates `offset .. offset + count`.
pub open spec fn spec_window_rows(cs: Seq<DiscoveredRepo>, cursor: nat, offset: nat, count: nat) -> Seq<Seq<(Seq<char>, Tone)>> {
    Seq::new(count, |k: int| spec_candidate_row(cs[offset + k], offset + k == cursor))
}

/// Columns an error line of the scan dialog may take: the inner width
/// less the four-column gutter.
pub const SCAN_ERROR_WIDTH: usize = 66;

/// What the body of the scan dialog shows.
#[derive(Debug, Clone, Copy, PartialEq, Eq, Structural)]
pub enum ScanBody {
    /// The scan is still running.
    Scanning,
    /// The scan found no repository.
    NoRepositories,
    /// The header and the window of candidates.
    Candidates,
}

/// What the scan dialog shows.
pub struct ScanView {
    pub title: String,
    pub body: ScanBody,
    /// Rows, borders included: a blank, the header, the list, a blank, the
    /// error rows, a blank and the hint.
    pub height: u16,
    pub errors: Vec<Span>,
    /// Row of the window the cursor is on.
    pub selected: usize,
    pub header: String,
    /// Index of the first candidate shown.
    pub offset: usize,
    /// The candidates shown, from `offset` on.
    pub rows: Vec<Vec<Span>>,
}

fn candidate_row(c: &DiscoveredRepo, is_cursor: bool) -> (v: Vec<Span>)
    ensures
        span_views(v@) == spec_candidate_row(*c, is_cursor),
{
    let mut v: Vec<Span> = Vec::new();
    let mut marker = String::new();
    push_char(&mut marker, if is_cursor { '▶' } else { ' ' });
    push_char(&mut marker, ' ');
    let mut check = String::new();
    push_char(&mut check, '[');
    push_char(&mut check, if c.selected { 'x' } else { ' ' });
    push_char(&mut check, ']');
    let mut space = String::new();
    push_char(&mut space, ' ');
    let mut gap = String::new();
    push_char(&mut gap, ' ');
    push_char(&mut gap, ' ');
    v.push(Span { text: marker, tone: Tone::Plain });
    v.push(Span { text: check, tone: Tone::Plain });
    v.push(Span { text: space, tone: Tone::Plain });
    let name_tone = if c.already_configured {
        Tone::DarkGray
    } else if is_cursor {
        Tone::Bold
    } else {
        Tone::Plain
    };
    v.push(Span { text: c.name.clone(), tone: name_tone });
    v.push(Span { text: gap, tone: Tone::Plain });
    v.push(Span { text: c.path.clone(), tone: Tone::DarkGray });
    if c.already_configured {
        let tag = string_of(" [already configured]");
        proof {
            reveal_strlit(" [already configured]");
            assert(" [already configured]"@ =~= seq![' ', '[', 'a', 'l', 'r', 'e', 'a', 'd', 'y', ' ', 'c', 'o', 'n', 'f', 'i', 'g', 'u', 'r', 'e', 'd', ']']);
        }
        v.push(Span { text: tag, tone: Tone::DarkGray });
    }
    assert(span_views(v@)[0].0 =~= spec_candidate_row(*c, is_cursor)[0].0);
    assert(span_views(v@)[1].0 =~= spec_candidate_row(*c, is_cursor)[1].0);
    assert(span_views(v@)[2].0 =~= spec_candidate_row(*c, is_cursor)[2].0);
    assert(span_views(v@)[4].0 =~= spec_candidate_row(*c, is_cursor)[4].0);
    if c.already_configured {
        assert(span_views(v@)[6].0 =~= spec_candidate_row(*c, is_cursor)[6].0);
    }
    assert(span_views(v@) =~= spec_candidate_row(*c, is_cursor));
    v
}

/// The scan dialog's title, header and the window of candidates around
/// the cursor.
pub fn scan_view(m: &DiscoveredReposModal) -> (s: ScanView)
    ensures
        s.body == if m.scanning {
            ScanBody::Scanning
        } else if m.candidates@.len() == 0 {
            ScanBody::NoRepositories
        } else {
            ScanBody::Candidates
        },
        span_views(s.errors@) == error_rows(
            wrapped_error(
                match m.error {
                    Some(e) => Some(e@),
                    None => None,
                },
                SCAN_ERROR_WIDTH as nat,
            ),
        ),
        s.height == 17 + s.errors@.len(),
        s.selected == if m.cursor >= s.offset { (m.cursor - s.offset) as nat } else { 0nat },
        s.title@ == spec_scan_title(m.scan_root@),
        s.header@ == spec_scan_header(count_selected(m.candidates@, m.candidates@.len()), m.candidates@.len()),
        s.offset == spec_scroll_offset(m.cursor as nat, m.candidates@.len(), SCAN_VISIBLE_ROWS as nat),
        rows_views(s.rows@) == spec_window_rows(
            m.candidates@,
            m.cursor as nat,
            s.offset as nat,
            if m.candidates@.len() - s.offset < SCAN_VISIBLE_ROWS {
                (m.candidates@.len() - s.offset) as nat
            } else {
                SCAN_VISIBLE_ROWS as nat
            },
        ),
{
    let mut title = string_of(" Scan: ");
    proof {
        reveal_strlit(" Scan: ");
        assert(" Scan: "@ =~= seq![' ', 'S', 'c', 'a', 'n', ':', ' ']);
    }
    push_str_chars(&mut title, m.scan_root.as_str());
    push_char(&mut title, ' ');
    assert(title@ =~= seq![' ', 'S', 'c', 'a', 'n', ':', ' '] + m.scan_root@ + seq![' ']);
    let title = truncate_to_width(title.as_str(), 68);

    let n = m.candidates.len();
    let mut selected: usize = 0;
    let mut i: usize = 0;
    while i < n
        invariant
            n == m.candidates@.len(),
            i <= n,
            selected == count_selected(m.candidates@, i as nat),
        decreases n - i,
    {
        proof {
            lemma_count_selected_le(m.candidates@, i as nat);
        }
        if m.candidates[i].selected {
            selected += 1;
        }
        i += 1;
    }
    let mut header = String::new();
    push_char(&mut header, ' ');
    push_char(&mut header, ' ');
    push_decimal(&mut header, selected);
    let of_text = " of ";
    push_str_chars(&mut header, of_text);
    push_decimal(&mut header, n);
    let tail = " selected.  Space to toggle.";
    push_str_chars(&mut header, tail);
    proof {
        reveal_strlit(" of ");
        reveal_strlit(" selected.  Space to toggle.");
        assert(" of "@ =~= seq![' ', 'o', 'f', ' ']);
        assert(" selected.  Space to toggle."@ =~= seq![
            ' ', 's', 'e', 'l', 'e', 'c', 't', 'e', 'd', '.', ' ', ' ', 'S', 'p', 'a', 'c', 'e', ' ', 't', 'o', ' ', 't', 'o', 'g', 'g', 'l', 'e', '.',
        ]);
    }
    assert(header@ =~= spec_scan_header(count_selected(m.candidates@, m.candidates@.len()), m.candidates@.len()));

    let offset = scroll_offset(m.cursor, n, SCAN_VISIBLE_ROWS);
    let count = if n - offset < SCAN_VISIBLE_ROWS {
        n - offset
    } else {
        SCAN_VISIBLE_ROWS
    };
    let ghost want = spec_window_rows(m.candidates@, m.cursor as nat, offset as nat, count as nat);
    let mut rows: Vec<Vec<Span>> = Vec::new();
    let mut k: usize = 0;
    while k < count
        invariant
            n == m.candidates@.len(),
            offset + count <= n,
            k <= count,
            want == spec_window_rows(m.candidates@, m.cursor as nat, offset as nat, count as nat),
            rows_views(rows@) == want.subrange(0, k as int),
        decreases count - k,
    {
        let row = candidate_row(&m.candidates[offset + k], offset + k == m.cursor);
        let ghost prev = rows@;
        rows.push(row);
        assert(rows_views(rows@) =~= rows_views(prev).push(want[k as int]));
        assert(want.subrange(0, k + 1) =~= want.subrange(0, k as int).push(want[k as int]));
        k += 1;
    }
    assert(want.subrange(0, count as int) =~= want);
    let body = if m.scanning {
        ScanBody::Scanning
    } else if n == 0 {
        ScanBody::NoRepositories
    } else {
        ScanBody::Candidates
    };
    let errors = match &m.error {
        Some(e) => dialog_error(Some(e.as_str()), SCAN_ERROR_WIDTH),
        None => dialog_error(None, SCAN_ERROR_WIDTH),
    };
    let height = 17 + errors.len() as u16;
    let selected = if m.cursor >= offset {
        m.cursor - offset
    } else {
        0
    };
    ScanView { title, body, height, errors, selected, header, offset, rows }
}

} // verus!
