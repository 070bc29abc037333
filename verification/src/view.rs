//! The text the UI draws, as coloured spans: status badges, sidebar
//! worktree rows, the remove-worktree dialog, and wrapped messages.

use vstd::prelude::*;

use crate::app::{spec_active_id, AppState};
use crate::git::{opt_str_view, BranchEntry};
use crate::wrap::{spec_wrap, wrap_message};
use crate::modals::NewWorktreeModal;
use crate::model::{ChecksRollup, PrState, PrStatus, WorktreeStatus};
use crate::text::{decimal, push_char, push_decimal, push_str_chars, spec_truncate, string_of, truncate_to_width};

verus! {

/// How a span is drawn.
#[derive(Debug, Clone, Copy, PartialEq, Eq, Structural)]
pub enum Tone {
    Plain,
    Green,
    Yellow,
    Red,
    Dim,
    DimGreen,
    DarkGray,
    /// Bold text in the default colour.
    Bold,
    /// The staged / unstaged scope of a diff: cyan.
    Scope,
    /// An added diff line: green.
    Added,
    /// A deleted diff line: red.
    Removed,
    /// Reverse video: the cell under a text input's cursor.
    Cursor,
}

/// A piece of text in one tone.
#[derive(Debug, PartialEq, Eq)]
pub struct Span {
    pub text: String,
    pub tone: Tone,
}

pub open spec fn span_views(s: Seq<Span>) -> Seq<(Seq<char>, Tone)> {
    s.map_values(|x: Span| (x.text@, x.tone))
}

/// The spans of each row, as plain values.
pub open spec fn rows_views(rows: Seq<Vec<Span>>) -> Seq<Seq<(Seq<char>, Tone)>> {
    rows.map_values(|r: Vec<Span>| span_views(r@))
}

/// The status badges in priority order (conflicts, staged, modified,
/// deleted, ahead, behind), each with its count.
pub open spec fn badge_parts(s: WorktreeStatus) -> Seq<(Seq<char>, Tone)> {
    let p1 = if s.conflicts > 0 { seq![(seq!['⚠'], Tone::Red)] } else { Seq::empty() };
    let p2 = if s.staged > 0 { p1.push((seq!['+'] + decimal(s.staged as nat), Tone::Green)) } else { p1 };
    let p3 = if s.modified > 0 { p2.push((seq!['~'] + decimal(s.modified as nat), Tone::Yellow)) } else { p2 };
    let p4 = if s.deleted > 0 { p3.push((seq!['-'] + decimal(s.deleted as nat), Tone::Red)) } else { p3 };
    let p5 = if s.ahead > 0 { p4.push((seq!['↑'] + decimal(s.ahead as nat), Tone::Dim)) } else { p4 };
    if s.behind > 0 { p5.push((seq!['↓'] + decimal(s.behind as nat), Tone::Dim)) } else { p5 }
}

/// `parts` with a plain space between neighbours.
pub open spec fn spaced(parts: Seq<(Seq<char>, Tone)>) -> Seq<(Seq<char>, Tone)>
    decreases parts.len(),
{
    if parts.len() <= 1 {
        parts
    } else {
        spaced(parts.drop_last()).push((seq![' '], Tone::Plain)).push(parts.last())
    }
}

/// The badges of a status: a green check when clean, else the parts
/// separated by spaces.
pub open spec fn spec_badges(s: WorktreeStatus) -> Seq<(Seq<char>, Tone)> {
    if s.spec_is_clean() {
        seq![(seq!['✓'], Tone::Green)]
    } else {
        spaced(badge_parts(s))
    }
}

fn span(text: String, tone: Tone) -> (s: Span)
    ensures
        s.text == text,
        s.tone == tone,
{
    Span { text, tone }
}

fn counted(glyph: char, n: u32) -> (s: String)
    ensures
        s@ == seq![glyph] + decimal(n as nat),
{
    let mut s = String::new();
    push_char(&mut s, glyph);
    push_decimal(&mut s, n as usize);
    assert(s@ =~= seq![glyph] + decimal(n as nat));
    s
}

/// Add `part` to spans built so far from `parts`, with a space before it
/// unless it is the first.
fn push_spaced(spans: &mut Vec<Span>, part: Span, Ghost(parts): Ghost<Seq<(Seq<char>, Tone)>>)
    requires
        span_views(old(spans)@) == spaced(parts),
    ensures
        span_views(final(spans)@) == spaced(parts.push((part.text@, part.tone))),
{
    let ghost p = (part.text@, part.tone);
    if spans.len() > 0 {
        let mut sp = String::new();
        push_char(&mut sp, ' ');
        spans.push(span(sp, Tone::Plain));
        assert(parts.len() > 0) by {
            if parts.len() == 0 {
                assert(spaced(parts).len() == 0);
            }
        }
    } else {
        assert(parts.len() == 0) by {
            if parts.len() > 0 {
                lemma_spaced_nonempty(parts);
            }
        }
    }
    spans.push(part);
    assert(parts.push(p).drop_last() =~= parts);
    assert(span_views(spans@) =~= spaced(parts.push(p)));
}

proof fn lemma_spaced_nonempty(parts: Seq<(Seq<char>, Tone)>)
    requires
        parts.len() > 0,
    ensures
        spaced(parts).len() > 0,
    decreases parts.len(),
{
}

/// The badges of a worktree's status.
pub fn badge_spans(status: &WorktreeStatus) -> (v: Vec<Span>)
    ensures
        span_views(v@) == spec_badges(*status),
{
    let mut spans: Vec<Span> = Vec::new();
    if status.is_clean() {
        let mut t = String::new();
        push_char(&mut t, '✓');
        spans.push(span(t, Tone::Green));
        assert(span_views(spans@) =~= seq![(seq!['✓'], Tone::Green)]);
        return spans;
    }
    let ghost s = *status;
    let ghost mut parts: Seq<(Seq<char>, Tone)> = Seq::empty();
    assert(span_views(spans@) =~= spaced(parts));
    if status.conflicts > 0 {
        let mut t = String::new();
        push_char(&mut t, '⚠');
        let x = span(t, Tone::Red);
        proof {
            assert(x.text@ =~= seq!['⚠']);
        }
        push_spaced(&mut spans, x, Ghost(parts));
        proof {
            parts = parts.push((seq!['⚠'], Tone::Red));
        }
    }
    if status.staged > 0 {
        let x = span(counted('+', status.staged), Tone::Green);
        push_spaced(&mut spans, x, Ghost(parts));
        proof {
            parts = parts.push((seq!['+'] + decimal(s.staged as nat), Tone::Green));
        }
    }
    if status.modified > 0 {
        let x = span(counted('~', status.modified), Tone::Yellow);
        push_spaced(&mut spans, x, Ghost(parts));
        proof {
            parts = parts.push((seq!['~'] + decimal(s.modified as nat), Tone::Yellow));
        }
    }
    if status.deleted > 0 {
        let x = span(counted('-', status.deleted), Tone::Red);
        push_spaced(&mut spans, x, Ghost(parts));
        proof {
            parts = parts.push((seq!['-'] + decimal(s.deleted as nat), Tone::Red));
        }
    }
    if status.ahead > 0 {
        let x = span(counted('↑', status.ahead), Tone::Dim);
        push_spaced(&mut spans, x, Ghost(parts));
        proof {
            parts = parts.push((seq!['↑'] + decimal(s.ahead as nat), Tone::Dim));
        }
    }
    if status.behind > 0 {
        let x = span(counted('↓', status.behind), Tone::Dim);
        push_spaced(&mut spans, x, Ghost(parts));
        proof {
            parts = parts.push((seq!['↓'] + decimal(s.behind as nat), Tone::Dim));
        }
    }
    assert(parts =~= badge_parts(s));
    spans
}

/// Columns the spans take: their characters.
pub open spec fn spans_width(s: Seq<(Seq<char>, Tone)>) -> nat
    decreases s.len(),
{
    if s.len() == 0 {
        0
    } else {
        spans_width(s.drop_last()) + s.last().0.len()
    }
}

/// Columns the spans take.
pub fn badge_width(spans: &Vec<Span>) -> (w: usize)
    requires
        spans_width(span_views(spans@)) <= usize::MAX,
    ensures
        w == spans_width(span_views(spans@)),
{
    let mut w: usize = 0;
    let mut i: usize = 0;
    while i < spans.len()
        invariant
            i <= spans@.len(),
            spans_width(span_views(spans@)) <= usize::MAX,
            w == spans_width(span_views(spans@.subrange(0, i as int))),
        decreases spans@.len() - i,
    {
        proof {
            assert(span_views(spans@.subrange(0, i + 1)).drop_last() =~= span_views(spans@.subrange(0, i as int)));
            lemma_width_prefix(span_views(spans@), i + 1);
            assert(span_views(spans@).subrange(0, i + 1) =~= span_views(spans@.subrange(0, i + 1)));
        }
        w = w + spans[i].text.as_str().unicode_len();
        i += 1;
    }
    assert(spans@.subrange(0, spans@.len() as int) =~= spans@);
    w
}

proof fn lemma_width_prefix(s: Seq<(Seq<char>, Tone)>, k: int)
    requires
        0 <= k <= s.len(),
    ensures
        spans_width(s.subrange(0, k)) <= spans_width(s),
    decreases s.len() - k,
{
    if k < s.len() {
        lemma_width_prefix(s, k + 1);
        assert(s.subrange(0, k + 1).drop_last() =~= s.subrange(0, k));
    } else {
        assert(s.subrange(0, k) =~= s);
    }
}

/// The pull request marks: its state glyph, then a cross for failing or
/// a spinner for pending checks.
pub open spec fn pr_parts(pr: PrStatus) -> Seq<(Seq<char>, Tone)> {
    let state = match pr.state {
        PrState::Open => (seq!['●'], Tone::Green),
        PrState::Draft => (seq!['◐'], Tone::Yellow),
        PrState::Merged => (seq!['✓', '●'], Tone::DimGreen),
        PrState::Closed => (seq!['●'], Tone::Dim),
    };
    match pr.checks {
        ChecksRollup::Failing => seq![state, (seq!['✗'], Tone::Red)],
        ChecksRollup::Pending => seq![state, (seq!['⟳'], Tone::Yellow)],
        _ => seq![state],
    }
}

/// `spans` with the pull request marks added (after a space when there
/// are spans already); unchanged without a pull request.
pub open spec fn with_pr(spans: Seq<(Seq<char>, Tone)>, pr: Option<PrStatus>) -> Seq<(Seq<char>, Tone)> {
    match pr {
        None => spans,
        Some(p) => (if spans.len() > 0 { spans.push((seq![' '], Tone::Plain)) } else { spans }) + pr_parts(p),
    }
}

fn glyph_span(s: &str, tone: Tone) -> (x: Span)
    ensures
        x.text@ == s@,
        x.tone == tone,
{
    span(string_of(s), tone)
}

/// Append the pull request marks to the badges.
pub fn append_pr_spans(pr: Option<&PrStatus>, spans: &mut Vec<Span>)
    ensures
        span_views(final(spans)@) == with_pr(span_views(old(spans)@), match pr {
            Some(p) => Some(*p),
            None => None,
        }),
{
    let p = match pr {
        Some(p) => p,
        None => return,
    };
    let ghost before = span_views(spans@);
    if spans.len() > 0 {
        let mut sp = String::new();
        push_char(&mut sp, ' ');
        spans.push(span(sp, Tone::Plain));
    }
    let ghost mid = span_views(spans@);
    assert(mid =~= if before.len() > 0 { before.push((seq![' '], Tone::Plain)) } else { before });
    proof {
        reveal_strlit("●");
        reveal_strlit("◐");
        reveal_strlit("✓●");
        reveal_strlit("✗");
        reveal_strlit("⟳");
    }
    let state = match p.state {
        PrState::Open => glyph_span("●", Tone::Green),
        PrState::Draft => glyph_span("◐", Tone::Yellow),
        PrState::Merged => glyph_span("✓●", Tone::DimGreen),
        PrState::Closed => glyph_span("●", Tone::Dim),
    };
    assert(state.text@ =~= pr_parts(*p)[0].0);
    spans.push(state);
    match p.checks {
        ChecksRollup::Failing => {
            let x = glyph_span("✗", Tone::Red);
            assert(x.text@ =~= seq!['✗']);
            spans.push(x);
        },
        ChecksRollup::Pending => {
            let x = glyph_span("⟳", Tone::Yellow);
            assert(x.text@ =~= seq!['⟳']);
            spans.push(x);
        },
        _ => {},
    }
    assert(span_views(spans@) =~= mid + pr_parts(*p));
}

/// Columns of the sidebar.
pub const SIDEBAR_WIDTH: usize = 32;

/// Columns a worktree row spends before its label: cursor marker, two
/// spaces, the glyph and a space.
pub const WORKTREE_PREFIX: usize = 5;

/// The label budget of a worktree row: what the sidebar leaves after the
/// prefix and, when there are badges, the badges and a space.
pub open spec fn label_budget(status_width: nat, has_status: bool) -> nat {
    let cols = if has_status { status_width + 1 } else { 0 };
    if WORKTREE_PREFIX + cols <= SIDEBAR_WIDTH {
        (SIDEBAR_WIDTH - (WORKTREE_PREFIX + cols)) as nat
    } else {
        0
    }
}

/// The spans of a sidebar worktree row: marker (`▸` under the cursor),
/// two spaces, `○` for the primary checkout or `●`, a space, the label
/// cut to its budget, padding so that the badges end at the sidebar's
/// edge, then the badges and pull request marks.
pub open spec fn spec_worktree_line(is_cursor: bool, is_primary: bool, label: Seq<char>, status: Seq<(Seq<char>, Tone)>) -> Seq<(Seq<char>, Tone)> {
    let prefix = seq![if is_cursor { '▸' } else { ' ' }, ' ', ' ', if is_primary { '○' } else { '●' }, ' '];
    let shown = spec_truncate(label, label_budget(spans_width(status), status.len() > 0));
    let used = WORKTREE_PREFIX + shown.len() + spans_width(status);
    let pad = if used <= SIDEBAR_WIDTH { (SIDEBAR_WIDTH - used) as nat } else { 0 };
    seq![(prefix, Tone::Plain), (shown, Tone::Plain), (Seq::new(pad, |i: int| ' '), Tone::Plain)] + status
}

/// The spans of one worktree row of the sidebar.
pub fn worktree_line(is_cursor: bool, is_primary: bool, label: &str, status: Option<&WorktreeStatus>, pr: Option<&PrStatus>) -> (v: Vec<Span>)
    ensures
        span_views(v@) == spec_worktree_line(
            is_cursor,
            is_primary,
            label@,
            with_pr(
                match status {
                    Some(s) => spec_badges(*s),
                    None => Seq::empty(),
                },
                match pr {
                    Some(p) => Some(*p),
                    None => None,
                },
            ),
        ),
{
    let mut status_spans = match status {
        Some(s) => badge_spans(s),
        None => Vec::new(),
    };
    assert(span_views(status_spans@) =~= match status {
        Some(s) => spec_badges(*s),
        None => Seq::<(Seq<char>, Tone)>::empty(),
    });
    append_pr_spans(pr, &mut status_spans);
    let ghost st = span_views(status_spans@);
    proof {
        lemma_status_width(status, pr);
    }
    let sw = badge_width(&status_spans);
    let cols = if status_spans.len() == 0 {
        0
    } else {
        sw + 1
    };
    let budget = if WORKTREE_PREFIX + cols <= SIDEBAR_WIDTH {
        SIDEBAR_WIDTH - (WORKTREE_PREFIX + cols)
    } else {
        0
    };
    let shown = truncate_to_width(label, budget);
    let used = WORKTREE_PREFIX + shown.as_str().unicode_len() + sw;
    let pad = if used <= SIDEBAR_WIDTH {
        SIDEBAR_WIDTH - used
    } else {
        0
    };
    let mut prefix = String::new();
    push_char(&mut prefix, if is_cursor { '▸' } else { ' ' });
    push_char(&mut prefix, ' ');
    push_char(&mut prefix, ' ');
    push_char(&mut prefix, if is_primary { '○' } else { '●' });
    push_char(&mut prefix, ' ');
    let mut padding = String::new();
    let mut k: usize = 0;
    while k < pad
        invariant
            k <= pad,
            padding@ =~= Seq::new(k as nat, |i: int| ' '),
        decreases pad - k,
    {
        push_char(&mut padding, ' ');
        k += 1;
    }
    let ghost pv = seq![if is_cursor { '▸' } else { ' ' }, ' ', ' ', if is_primary { '○' } else { '●' }, ' '];
    assert(prefix@ =~= pv);
    let ghost sv = shown@;
    let ghost padv = padding@;
    assert(padv =~= Seq::new(pad as nat, |i: int| ' '));
    let mut v: Vec<Span> = Vec::new();
    v.push(span(prefix, Tone::Plain));
    v.push(span(shown, Tone::Plain));
    v.push(span(padding, Tone::Plain));
    let ghost head = span_views(v@);
    assert(head =~= seq![(pv, Tone::Plain), (sv, Tone::Plain), (padv, Tone::Plain)]);
    v.append(&mut status_spans);
    assert(span_views(v@) =~= head + st);
    v
}

pub open spec fn pow10(k: nat) -> nat
    decreases k,
{
    if k == 0 {
        1
    } else {
        10 * pow10((k - 1) as nat)
    }
}

proof fn lemma_decimal_len(n: nat, k: nat)
    requires
        1 <= k,
        n < pow10(k),
    ensures
        decimal(n).len() <= k,
    decreases n,
{
    if n >= 10 {
        if k == 1 {
            assert(pow10(1) == 10 * pow10(0));
        }
        let p = pow10((k - 1) as nat);
        assert(pow10(k) == 10 * p);
        assert(n / 10 < p) by (nonlinear_arith)
            requires
                n < 10 * p,
        ;
        lemma_decimal_len(n / 10, (k - 1) as nat);
    }
}

/// The decimal form of a `u32` has at most ten digits.
proof fn lemma_u32_digits(n: u32)
    ensures
        decimal(n as nat).len() <= 10,
{
    reveal_with_fuel(pow10, 11);
    assert(pow10(10) == 10000000000);
    lemma_decimal_len(n as nat, 10);
}

proof fn lemma_width_push(s: Seq<(Seq<char>, Tone)>, x: (Seq<char>, Tone))
    ensures
        spans_width(s.push(x)) == spans_width(s) + x.0.len(),
{
    assert(s.push(x).drop_last() =~= s);
}

proof fn lemma_width_concat(a: Seq<(Seq<char>, Tone)>, b: Seq<(Seq<char>, Tone)>)
    ensures
        spans_width(a + b) == spans_width(a) + spans_width(b),
    decreases b.len(),
{
    if b.len() == 0 {
        assert(a + b =~= a);
    } else {
        lemma_width_concat(a, b.drop_last());
        assert((a + b).drop_last() =~= a + b.drop_last());
    }
}

proof fn lemma_spaced_width(parts: Seq<(Seq<char>, Tone)>)
    ensures
        spans_width(spaced(parts)) <= spans_width(parts) + parts.len(),
    decreases parts.len(),
{
    if parts.len() > 1 {
        lemma_spaced_width(parts.drop_last());
        lemma_width_push(spaced(parts.drop_last()), (seq![' '], Tone::Plain));
        lemma_width_push(spaced(parts.drop_last()).push((seq![' '], Tone::Plain)), parts.last());
        lemma_width_push(parts.drop_last(), parts.last());
        assert(parts.drop_last().push(parts.last()) =~= parts);
    }
}

proof fn lemma_badge_parts_width(s: WorktreeStatus)
    ensures
        spans_width(badge_parts(s)) <= 66,
        badge_parts(s).len() <= 6,
{
    lemma_u32_digits(s.staged);
    lemma_u32_digits(s.modified);
    lemma_u32_digits(s.deleted);
    lemma_u32_digits(s.ahead);
    lemma_u32_digits(s.behind);
    let e = Seq::<(Seq<char>, Tone)>::empty();
    let p1 = if s.conflicts > 0 { seq![(seq!['⚠'], Tone::Red)] } else { e };
    lemma_width_push(e, (seq!['⚠'], Tone::Red));
    assert(e.push((seq!['⚠'], Tone::Red)) =~= seq![(seq!['⚠'], Tone::Red)]);
    let p2 = if s.staged > 0 { p1.push((seq!['+'] + decimal(s.staged as nat), Tone::Green)) } else { p1 };
    lemma_width_push(p1, (seq!['+'] + decimal(s.staged as nat), Tone::Green));
    let p3 = if s.modified > 0 { p2.push((seq!['~'] + decimal(s.modified as nat), Tone::Yellow)) } else { p2 };
    lemma_width_push(p2, (seq!['~'] + decimal(s.modified as nat), Tone::Yellow));
    let p4 = if s.deleted > 0 { p3.push((seq!['-'] + decimal(s.deleted as nat), Tone::Red)) } else { p3 };
    lemma_width_push(p3, (seq!['-'] + decimal(s.deleted as nat), Tone::Red));
    let p5 = if s.ahead > 0 { p4.push((seq!['↑'] + decimal(s.ahead as nat), Tone::Dim)) } else { p4 };
    lemma_width_push(p4, (seq!['↑'] + decimal(s.ahead as nat), Tone::Dim));
    lemma_width_push(p5, (seq!['↓'] + decimal(s.behind as nat), Tone::Dim));
}

proof fn lemma_pr_width(spans: Seq<(Seq<char>, Tone)>, pr: Option<PrStatus>)
    ensures
        spans_width(with_pr(spans, pr)) <= spans_width(spans) + 4,
{
    if let Some(p) = pr {
        let base = if spans.len() > 0 { spans.push((seq![' '], Tone::Plain)) } else { spans };
        lemma_width_push(spans, (seq![' '], Tone::Plain));
        lemma_width_concat(base, pr_parts(p));
        let e = Seq::<(Seq<char>, Tone)>::empty();
        let st = pr_parts(p)[0];
        lemma_width_push(e, st);
        assert(e.push(st) =~= seq![st]);
        lemma_width_push(seq![st], (seq!['✗'], Tone::Red));
        assert(seq![st].push((seq!['✗'], Tone::Red)) =~= seq![st, (seq!['✗'], Tone::Red)]);
        lemma_width_push(seq![st], (seq!['⟳'], Tone::Yellow));
        assert(seq![st].push((seq!['⟳'], Tone::Yellow)) =~= seq![st, (seq!['⟳'], Tone::Yellow)]);
    }
}

/// The badges of a row take at most a few dozen columns (counts are
/// `u32`, so at most ten digits each).
proof fn lemma_status_width(status: Option<&WorktreeStatus>, pr: Option<&PrStatus>)
    ensures
        spans_width(
            with_pr(
                match status {
                    Some(s) => spec_badges(*s),
                    None => Seq::empty(),
                },
                match pr {
                    Some(p) => Some(*p),
                    None => None,
                },
            ),
        ) <= 200,
{
    let base = match status {
        Some(s) => spec_badges(*s),
        None => Seq::<(Seq<char>, Tone)>::empty(),
    };
    if let Some(s) = status {
        if s.spec_is_clean() {
            let e = Seq::<(Seq<char>, Tone)>::empty();
            lemma_width_push(e, (seq!['✓'], Tone::Green));
            assert(e.push((seq!['✓'], Tone::Green)) =~= seq![(seq!['✓'], Tone::Green)]);
        } else {
            lemma_badge_parts_width(*s);
            lemma_spaced_width(badge_parts(*s));
        }
    }
    lemma_pr_width(base, match pr {
        Some(p) => Some(*p),
        None => None,
    });
}

/// A dialog: its title, its height in rows (borders included), and its
/// body lines.
#[derive(Debug)]
pub struct DialogView {
    pub title: String,
    pub height: u16,
    pub lines: Vec<Span>,
}

/// Width of the remove-worktree dialog.
pub const REMOVE_DIALOG_WIDTH: usize = 66;

/// Most lines an error takes in the remove-worktree dialog.
pub const ERROR_MAX_LINES: usize = 3;

/// Columns an error line of the remove-worktree dialog may take: the
/// inner width less a four-column gutter.
pub const ERROR_WIDTH: usize = 60;

pub open spec fn plain_line(t: Seq<char>) -> (Seq<char>, Tone) {
    (t, Tone::Plain)
}

/// The error lines, the first after `  ! `, the others indented to match,
/// then an empty line (nothing when there is no error).
pub open spec fn error_block(err: Seq<Seq<char>>) -> Seq<(Seq<char>, Tone)> {
    if err.len() == 0 {
        Seq::empty()
    } else {
        Seq::new(err.len(), |i: int| ((if i == 0 { seq![' ', ' ', '!', ' '] } else { seq![' ', ' ', ' ', ' '] }) + err[i], Tone::Red)).push(plain_line(Seq::empty()))
    }
}

/// The body of the remove-worktree dialog: repository, worktree path,
/// for an unmerged branch a warning (and one about an open pull request),
/// the two options, the error if any, and the key hint.
pub open spec fn remove_dialog_lines(branch: Seq<char>, path: Seq<char>, repo: Seq<char>, unmerged: bool, pr_number: Option<u32>, err: Seq<Seq<char>>) -> Seq<(Seq<char>, Tone)> {
    let head = seq![
        plain_line(Seq::empty()),
        plain_line(seq![' ', ' ', 'R', 'e', 'p', 'o', 's', 'i', 't', 'o', 'r', 'y', ':', ' '] + spec_truncate(repo, 50)),
        (seq![' ', ' ', 'W', 'o', 'r', 'k', 't', 'r', 'e', 'e', ':', ' ', ' ', ' '] + spec_truncate(path, 50), Tone::DarkGray),
        plain_line(Seq::empty()),
    ];
    let warn = if unmerged {
        seq![(seq![' ', ' ', '⚠', ' ', '"'] + spec_truncate(branch, 36) + seq!['"', ' ', 'h', 'a', 's', ' ', 'u', 'n', 'm', 'e', 'r', 'g', 'e', 'd', ' ', 'c', 'o', 'm', 'm', 'i', 't', 's', '.'], Tone::Yellow)] + match pr_number {
            Some(n) => seq![(seq![' ', ' ', '⚠', ' ', 'P', 'R', ' ', '#'] + decimal(n as nat) + seq![' ', 'i', 's', ' ', 'o', 'p', 'e', 'n', ' ', '—', ' ', 'f', 'o', 'r', 'c', 'e', '-', 'd', 'e', 'l', 'e', 't', 'e', ' ', 'w', 'i', 'l', 'l', ' ', 'c', 'l', 'o', 's', 'e', ' ', 'i', 't', '.'], Tone::Yellow)],
            None => Seq::empty(),
        } + seq![plain_line(Seq::empty())]
    } else {
        Seq::empty()
    };
    let options = seq![
        plain_line(seq![' ', ' ', '[', 'k', ']', ' ', 'R', 'e', 'm', 'o', 'v', 'e', ' ', 'w', 'o', 'r', 'k', 't', 'r', 'e', 'e', ',', ' ', 'k', 'e', 'e', 'p', ' ', 'b', 'r', 'a', 'n', 'c', 'h', ' ', ' ', '(', 'd', 'e', 'f', 'a', 'u', 'l', 't', ')']),
        plain_line(if unmerged { seq![' ', ' ', '[', 'D', ']', ' ', 'R', 'e', 'm', 'o', 'v', 'e', ' ', 'w', 'o', 'r', 'k', 't', 'r', 'e', 'e', ' ', 'a', 'n', 'd', ' ', 'f', 'o', 'r', 'c', 'e', '-', 'd', 'e', 'l', 'e', 't', 'e', ' ', 'b', 'r', 'a', 'n', 'c', 'h', ' ', '(', '-', 'D', ')'] } else { seq![' ', ' ', '[', 'd', ']', ' ', 'R', 'e', 'm', 'o', 'v', 'e', ' ', 'w', 'o', 'r', 'k', 't', 'r', 'e', 'e', ' ', 'a', 'n', 'd', ' ', 'd', 'e', 'l', 'e', 't', 'e', ' ', 'b', 'r', 'a', 'n', 'c', 'h', ' ', '(', '-', 'd', ')'] }),
        plain_line(Seq::empty()),
    ];
    let hint = seq![plain_line(if unmerged { seq![' ', ' ', 'k', ' ', 'k', 'e', 'e', 'p', ' ', '·', ' ', 'D', ' ', 'f', 'o', 'r', 'c', 'e', '-', 'd', 'e', 'l', 'e', 't', 'e', ' ', '·', ' ', 'E', 's', 'c', ' ', 'c', 'a', 'n', 'c', 'e', 'l'] } else { seq![' ', ' ', 'k', ' ', 'k', 'e', 'e', 'p', ' ', '·', ' ', 'd', ' ', 'd', 'e', 'l', 'e', 't', 'e', ' ', '·', ' ', 'E', 's', 'c', ' ', 'c', 'a', 'n', 'c', 'e', 'l'] })];
    head + warn + options + error_block(err) + hint
}

/// Rows of the remove-worktree dialog, borders included.
pub open spec fn remove_dialog_height(unmerged: bool, has_pr: bool, err_lines: nat) -> nat {
    8 + (if unmerged { if has_pr { 3nat } else { 2nat } } else { 0nat }) + (if err_lines > 0 { err_lines + 1 } else { 0nat }) + 2
}

fn cat(a: &str, b: &str) -> (r: String)
    ensures
        r@ == a@ + b@,
{
    let mut r = string_of(a);
    r.append(b);
    r
}

proof fn lemma_dialog_literals()
    ensures
        "  Repository: "@ == seq![' ', ' ', 'R', 'e', 'p', 'o', 's', 'i', 't', 'o', 'r', 'y', ':', ' '],
        "  Worktree:   "@ == seq![' ', ' ', 'W', 'o', 'r', 'k', 't', 'r', 'e', 'e', ':', ' ', ' ', ' '],
        "  ⚠ \""@ == seq![' ', ' ', '⚠', ' ', '"'],
        "\" has unmerged commits."@ == seq!['"', ' ', 'h', 'a', 's', ' ', 'u', 'n', 'm', 'e', 'r', 'g', 'e', 'd', ' ', 'c', 'o', 'm', 'm', 'i', 't', 's', '.'],
        "  ⚠ PR #"@ == seq![' ', ' ', '⚠', ' ', 'P', 'R', ' ', '#'],
        " is open — force-delete will close it."@ == seq![' ', 'i', 's', ' ', 'o', 'p', 'e', 'n', ' ', '—', ' ', 'f', 'o', 'r', 'c', 'e', '-', 'd', 'e', 'l', 'e', 't', 'e', ' ', 'w', 'i', 'l', 'l', ' ', 'c', 'l', 'o', 's', 'e', ' ', 'i', 't', '.'],
        "  [k] Remove worktree, keep branch  (default)"@ == seq![' ', ' ', '[', 'k', ']', ' ', 'R', 'e', 'm', 'o', 'v', 'e', ' ', 'w', 'o', 'r', 'k', 't', 'r', 'e', 'e', ',', ' ', 'k', 'e', 'e', 'p', ' ', 'b', 'r', 'a', 'n', 'c', 'h', ' ', ' ', '(', 'd', 'e', 'f', 'a', 'u', 'l', 't', ')'],
        "  [D] Remove worktree and force-delete branch (-D)"@ == seq![' ', ' ', '[', 'D', ']', ' ', 'R', 'e', 'm', 'o', 'v', 'e', ' ', 'w', 'o', 'r', 'k', 't', 'r', 'e', 'e', ' ', 'a', 'n', 'd', ' ', 'f', 'o', 'r', 'c', 'e', '-', 'd', 'e', 'l', 'e', 't', 'e', ' ', 'b', 'r', 'a', 'n', 'c', 'h', ' ', '(', '-', 'D', ')'],
        "  [d] Remove worktree and delete branch (-d)"@ == seq![' ', ' ', '[', 'd', ']', ' ', 'R', 'e', 'm', 'o', 'v', 'e', ' ', 'w', 'o', 'r', 'k', 't', 'r', 'e', 'e', ' ', 'a', 'n', 'd', ' ', 'd', 'e', 'l', 'e', 't', 'e', ' ', 'b', 'r', 'a', 'n', 'c', 'h', ' ', '(', '-', 'd', ')'],
        "  k keep · D force-delete · Esc cancel"@ == seq![' ', ' ', 'k', ' ', 'k', 'e', 'e', 'p', ' ', '·', ' ', 'D', ' ', 'f', 'o', 'r', 'c', 'e', '-', 'd', 'e', 'l', 'e', 't', 'e', ' ', '·', ' ', 'E', 's', 'c', ' ', 'c', 'a', 'n', 'c', 'e', 'l'],
        "  k keep · d delete · Esc cancel"@ == seq![' ', ' ', 'k', ' ', 'k', 'e', 'e', 'p', ' ', '·', ' ', 'd', ' ', 'd', 'e', 'l', 'e', 't', 'e', ' ', '·', ' ', 'E', 's', 'c', ' ', 'c', 'a', 'n', 'c', 'e', 'l'],
        "  ! "@ == seq![' ', ' ', '!', ' '],
        "    "@ == seq![' ', ' ', ' ', ' '],
        " Remove worktree for "@ == seq![' ', 'R', 'e', 'm', 'o', 'v', 'e', ' ', 'w', 'o', 'r', 'k', 't', 'r', 'e', 'e', ' ', 'f', 'o', 'r', ' '],
        " "@ == seq![' '],
{
    reveal_strlit("  Repository: ");
    assert("  Repository: "@ =~= seq![' ', ' ', 'R', 'e', 'p', 'o', 's', 'i', 't', 'o', 'r', 'y', ':', ' ']);
    reveal_strlit("  Worktree:   ");
    assert("  Worktree:   "@ =~= seq![' ', ' ', 'W', 'o', 'r', 'k', 't', 'r', 'e', 'e', ':', ' ', ' ', ' ']);
    reveal_strlit("  ⚠ \"");
    assert("  ⚠ \""@ =~= seq![' ', ' ', '⚠', ' ', '"']);
    reveal_strlit("\" has unmerged commits.");
    assert("\" has unmerged commits."@ =~= seq!['"', ' ', 'h', 'a', 's', ' ', 'u', 'n', 'm', 'e', 'r', 'g', 'e', 'd', ' ', 'c', 'o', 'm', 'm', 'i', 't', 's', '.']);
    reveal_strlit("  ⚠ PR #");
    assert("  ⚠ PR #"@ =~= seq![' ', ' ', '⚠', ' ', 'P', 'R', ' ', '#']);
    reveal_strlit(" is open — force-delete will close it.");
    assert(" is open — force-delete will close it."@ =~= seq![' ', 'i', 's', ' ', 'o', 'p', 'e', 'n', ' ', '—', ' ', 'f', 'o', 'r', 'c', 'e', '-', 'd', 'e', 'l', 'e', 't', 'e', ' ', 'w', 'i', 'l', 'l', ' ', 'c', 'l', 'o', 's', 'e', ' ', 'i', 't', '.']);
    reveal_strlit("  [k] Remove worktree, keep branch  (default)");
    assert("  [k] Remove worktree, keep branch  (default)"@ =~= seq![' ', ' ', '[', 'k', ']', ' ', 'R', 'e', 'm', 'o', 'v', 'e', ' ', 'w', 'o', 'r', 'k', 't', 'r', 'e', 'e', ',', ' ', 'k', 'e', 'e', 'p', ' ', 'b', 'r', 'a', 'n', 'c', 'h', ' ', ' ', '(', 'd', 'e', 'f', 'a', 'u', 'l', 't', ')']);
    reveal_strlit("  [D] Remove worktree and force-delete branch (-D)");
    assert("  [D] Remove worktree and force-delete branch (-D)"@ =~= seq![' ', ' ', '[', 'D', ']', ' ', 'R', 'e', 'm', 'o', 'v', 'e', ' ', 'w', 'o', 'r', 'k', 't', 'r', 'e', 'e', ' ', 'a', 'n', 'd', ' ', 'f', 'o', 'r', 'c', 'e', '-', 'd', 'e', 'l', 'e', 't', 'e', ' ', 'b', 'r', 'a', 'n', 'c', 'h', ' ', '(', '-', 'D', ')']);
    reveal_strlit("  [d] Remove worktree and delete branch (-d)");
    assert("  [d] Remove worktree and delete branch (-d)"@ =~= seq![' ', ' ', '[', 'd', ']', ' ', 'R', 'e', 'm', 'o', 'v', 'e', ' ', 'w', 'o', 'r', 'k', 't', 'r', 'e', 'e', ' ', 'a', 'n', 'd', ' ', 'd', 'e', 'l', 'e', 't', 'e', ' ', 'b', 'r', 'a', 'n', 'c', 'h', ' ', '(', '-', 'd', ')']);
    reveal_strlit("  k keep · D force-delete · Esc cancel");
    assert("  k keep · D force-delete · Esc cancel"@ =~= seq![' ', ' ', 'k', ' ', 'k', 'e', 'e', 'p', ' ', '·', ' ', 'D', ' ', 'f', 'o', 'r', 'c', 'e', '-', 'd', 'e', 'l', 'e', 't', 'e', ' ', '·', ' ', 'E', 's', 'c', ' ', 'c', 'a', 'n', 'c', 'e', 'l']);
    reveal_strlit("  k keep · d delete · Esc cancel");
    assert("  k keep · d delete · Esc cancel"@ =~= seq![' ', ' ', 'k', ' ', 'k', 'e', 'e', 'p', ' ', '·', ' ', 'd', ' ', 'd', 'e', 'l', 'e', 't', 'e', ' ', '·', ' ', 'E', 's', 'c', ' ', 'c', 'a', 'n', 'c', 'e', 'l']);
    reveal_strlit("  ! ");
    assert("  ! "@ =~= seq![' ', ' ', '!', ' ']);
    reveal_strlit("    ");
    assert("    "@ =~= seq![' ', ' ', ' ', ' ']);
    reveal_strlit(" Remove worktree for ");
    assert(" Remove worktree for "@ =~= seq![' ', 'R', 'e', 'm', 'o', 'v', 'e', ' ', 'w', 'o', 'r', 'k', 't', 'r', 'e', 'e', ' ', 'f', 'o', 'r', ' ']);
    reveal_strlit(" ");
    assert(" "@ =~= seq![' ']);
}

pub open spec fn string_views(v: Seq<String>) -> Seq<Seq<char>> {
    v.map_values(|s: String| s@)
}

/// The remove-worktree dialog for worktree `path` of repository
/// `repo_name` on `branch`, with `error`, the message of the last pick,
/// wrapped to `ERROR_WIDTH` columns.
pub fn remove_worktree_dialog(
    branch: &str,
    path: &str,
    repo_name: &str,
    variant: crate::modals::DeleteVariant,
    pr_number: Option<u32>,
    error: Option<&str>,
) -> (d: DialogView)
    ensures
        d.title@ == spec_truncate(seq![' ', 'R', 'e', 'm', 'o', 'v', 'e', ' ', 'w', 'o', 'r', 'k', 't', 'r', 'e', 'e', ' ', 'f', 'o', 'r', ' '] + branch@ + seq![' '], 62),
        d.height == remove_dialog_height(
            variant == crate::modals::DeleteVariant::Unmerged,
            pr_number.is_some(),
            wrapped_error(opt_str_view(error), ERROR_WIDTH as nat).len(),
        ),
        span_views(d.lines@) == remove_dialog_lines(
            branch@,
            path@,
            repo_name@,
            variant == crate::modals::DeleteVariant::Unmerged,
            pr_number,
            wrapped_error(opt_str_view(error), ERROR_WIDTH as nat),
        ),
{
    let err_lines = wrapped_error_lines(error, ERROR_WIDTH);
    assert(string_views(err_lines@).len() == err_lines@.len());
    remove_dialog_with_lines(branch, path, repo_name, variant, pr_number, &err_lines)
}

fn remove_dialog_with_lines(
    branch: &str,
    path: &str,
    repo_name: &str,
    variant: crate::modals::DeleteVariant,
    pr_number: Option<u32>,
    err_lines: &Vec<String>,
) -> (d: DialogView)
    requires
        err_lines@.len() <= ERROR_MAX_LINES,
    ensures
        d.title@ == spec_truncate(seq![' ', 'R', 'e', 'm', 'o', 'v', 'e', ' ', 'w', 'o', 'r', 'k', 't', 'r', 'e', 'e', ' ', 'f', 'o', 'r', ' '] + branch@ + seq![' '], 62),
        d.height == remove_dialog_height(variant == crate::modals::DeleteVariant::Unmerged, pr_number.is_some(), err_lines@.len()),
        span_views(d.lines@) == remove_dialog_lines(
            branch@,
            path@,
            repo_name@,
            variant == crate::modals::DeleteVariant::Unmerged,
            pr_number,
            string_views(err_lines@),
        ),
{
    proof {
        lemma_dialog_literals();
    }
    let unmerged = variant == crate::modals::DeleteVariant::Unmerged;
    let t = cat(" Remove worktree for ", branch);
    let t2 = cat(t.as_str(), " ");
    let title = truncate_to_width(t2.as_str(), 62);
    let mut height: u16 = 8;
    if unmerged {
        height = height + if pr_number.is_some() { 3 } else { 2 };
    }
    if err_lines.len() > 0 {
        height = height + (err_lines.len() as u16) + 1;
    }
    height = height + 2;
    let mut lines: Vec<Span> = Vec::new();
    lines.push(span(String::new(), Tone::Plain));
    let repo_shown = truncate_to_width(repo_name, 50);
    lines.push(span(cat("  Repository: ", repo_shown.as_str()), Tone::Plain));
    let path_shown = truncate_to_width(path, 50);
    lines.push(span(cat("  Worktree:   ", path_shown.as_str()), Tone::DarkGray));
    lines.push(span(String::new(), Tone::Plain));
    let ghost head = span_views(lines@);
    assert(head =~= seq![
        plain_line(Seq::empty()),
        plain_line(seq![' ', ' ', 'R', 'e', 'p', 'o', 's', 'i', 't', 'o', 'r', 'y', ':', ' '] + spec_truncate(repo_name@, 50)),
        (seq![' ', ' ', 'W', 'o', 'r', 'k', 't', 'r', 'e', 'e', ':', ' ', ' ', ' '] + spec_truncate(path@, 50), Tone::DarkGray),
        plain_line(Seq::empty()),
    ]);
    let ghost warn: Seq<(Seq<char>, Tone)> = Seq::empty();
    if unmerged {
        let b = truncate_to_width(branch, 36);
        let w1 = cat("  ⚠ \"", b.as_str());
        lines.push(span(cat(w1.as_str(), "\" has unmerged commits."), Tone::Yellow));
        if let Some(n) = pr_number {
            let mut w2 = string_of("  ⚠ PR #");
            push_decimal(&mut w2, n as usize);
            w2.append(" is open — force-delete will close it.");
            lines.push(span(w2, Tone::Yellow));
        }
        lines.push(span(String::new(), Tone::Plain));
    }
    let ghost after_warn = span_views(lines@);
    proof {
        let w = if unmerged {
            seq![(seq![' ', ' ', '⚠', ' ', '"'] + spec_truncate(branch@, 36) + seq!['"', ' ', 'h', 'a', 's', ' ', 'u', 'n', 'm', 'e', 'r', 'g', 'e', 'd', ' ', 'c', 'o', 'm', 'm', 'i', 't', 's', '.'], Tone::Yellow)] + match pr_number {
                Some(n) => seq![(seq![' ', ' ', '⚠', ' ', 'P', 'R', ' ', '#'] + decimal(n as nat) + seq![' ', 'i', 's', ' ', 'o', 'p', 'e', 'n', ' ', '—', ' ', 'f', 'o', 'r', 'c', 'e', '-', 'd', 'e', 'l', 'e', 't', 'e', ' ', 'w', 'i', 'l', 'l', ' ', 'c', 'l', 'o', 's', 'e', ' ', 'i', 't', '.'], Tone::Yellow)],
                None => Seq::<(Seq<char>, Tone)>::empty(),
            } + seq![plain_line(Seq::empty())]
        } else {
            Seq::<(Seq<char>, Tone)>::empty()
        };
        assert(after_warn =~= head + w);
    }
    lines.push(span(string_of("  [k] Remove worktree, keep branch  (default)"), Tone::Plain));
    if unmerged {
        lines.push(span(string_of("  [D] Remove worktree and force-delete branch (-D)"), Tone::Plain));
    } else {
        lines.push(span(string_of("  [d] Remove worktree and delete branch (-d)"), Tone::Plain));
    }
    lines.push(span(String::new(), Tone::Plain));
    let ghost after_opts = span_views(lines@);
    assert(after_opts =~= after_warn + seq![
        plain_line(seq![' ', ' ', '[', 'k', ']', ' ', 'R', 'e', 'm', 'o', 'v', 'e', ' ', 'w', 'o', 'r', 'k', 't', 'r', 'e', 'e', ',', ' ', 'k', 'e', 'e', 'p', ' ', 'b', 'r', 'a', 'n', 'c', 'h', ' ', ' ', '(', 'd', 'e', 'f', 'a', 'u', 'l', 't', ')']),
        plain_line(if unmerged { seq![' ', ' ', '[', 'D', ']', ' ', 'R', 'e', 'm', 'o', 'v', 'e', ' ', 'w', 'o', 'r', 'k', 't', 'r', 'e', 'e', ' ', 'a', 'n', 'd', ' ', 'f', 'o', 'r', 'c', 'e', '-', 'd', 'e', 'l', 'e', 't', 'e', ' ', 'b', 'r', 'a', 'n', 'c', 'h', ' ', '(', '-', 'D', ')'] } else { seq![' ', ' ', '[', 'd', ']', ' ', 'R', 'e', 'm', 'o', 'v', 'e', ' ', 'w', 'o', 'r', 'k', 't', 'r', 'e', 'e', ' ', 'a', 'n', 'd', ' ', 'd', 'e', 'l', 'e', 't', 'e', ' ', 'b', 'r', 'a', 'n', 'c', 'h', ' ', '(', '-', 'd', ')'] }),
        plain_line(Seq::empty()),
    ]);
    let mut i: usize = 0;
    while i < err_lines.len()
        invariant
            i <= err_lines@.len(),
            span_views(lines@) == after_opts + Seq::new(i as nat, |k: int| ((if k == 0 { seq![' ', ' ', '!', ' '] } else { seq![' ', ' ', ' ', ' '] }) + err_lines@[k]@, Tone::Red)),
            "  ! "@ == seq![' ', ' ', '!', ' '],
            "    "@ == seq![' ', ' ', ' ', ' '],
        decreases err_lines@.len() - i,
    {
        let prefix = if i == 0 { "  ! " } else { "    " };
        let ghost before = span_views(lines@);
        lines.push(span(cat(prefix, err_lines[i].as_str()), Tone::Red));
        assert(span_views(lines@) =~= before.push((prefix@ + err_lines@[i as int]@, Tone::Red)));
        i += 1;
        assert(span_views(lines@) =~= after_opts + Seq::new(i as nat, |k: int| ((if k == 0 { seq![' ', ' ', '!', ' '] } else { seq![' ', ' ', ' ', ' '] }) + err_lines@[k]@, Tone::Red)));
    }
    let ghost errs = Seq::new(err_lines@.len(), |k: int| ((if k == 0 { seq![' ', ' ', '!', ' '] } else { seq![' ', ' ', ' ', ' '] }) + err_lines@[k]@, Tone::Red));
    proof {
        let sv = string_views(err_lines@);
        assert(errs =~= Seq::new(sv.len(), |k: int| ((if k == 0 { seq![' ', ' ', '!', ' '] } else { seq![' ', ' ', ' ', ' '] }) + sv[k], Tone::Red)));
    }
    let ghost mid = span_views(lines@);
    assert(mid == after_opts + errs);
    if err_lines.len() > 0 {
        lines.push(span(String::new(), Tone::Plain));
        assert(span_views(lines@) =~= mid.push(plain_line(Seq::empty())));
        assert(mid.push(plain_line(Seq::empty())) =~= after_opts + errs.push(plain_line(Seq::empty())));
        assert(error_block(string_views(err_lines@)) =~= errs.push(plain_line(Seq::empty())));
    } else {
        assert(errs =~= Seq::<(Seq<char>, Tone)>::empty());
        assert(span_views(lines@) =~= after_opts);
        assert(error_block(string_views(err_lines@)) =~= Seq::<(Seq<char>, Tone)>::empty());
    }
    let ghost after_err = span_views(lines@);
    assert(after_err =~= after_opts + error_block(string_views(err_lines@)));
    if unmerged {
        lines.push(span(string_of("  k keep · D force-delete · Esc cancel"), Tone::Plain));
    } else {
        lines.push(span(string_of("  k keep · d delete · Esc cancel"), Tone::Plain));
    }
    assert(span_views(lines@) =~= after_err + seq![plain_line(if unmerged { seq![' ', ' ', 'k', ' ', 'k', 'e', 'e', 'p', ' ', '·', ' ', 'D', ' ', 'f', 'o', 'r', 'c', 'e', '-', 'd', 'e', 'l', 'e', 't', 'e', ' ', '·', ' ', 'E', 's', 'c', ' ', 'c', 'a', 'n', 'c', 'e', 'l'] } else { seq![' ', ' ', 'k', ' ', 'k', 'e', 'e', 'p', ' ', '·', ' ', 'd', ' ', 'd', 'e', 'l', 'e', 't', 'e', ' ', '·', ' ', 'E', 's', 'c', ' ', 'c', 'a', 'n', 'c', 'e', 'l'] })]);
    assert(span_views(lines@) =~= remove_dialog_lines(branch@, path@, repo_name@, unmerged, pr_number, string_views(err_lines@)));
    DialogView { title, height, lines }
}

/// A rectangle of terminal cells.
#[derive(Debug, Clone, Copy, PartialEq, Eq, Structural)]
pub struct Area {
    pub x: u16,
    pub y: u16,
    pub width: u16,
    pub height: u16,
}

/// Below this width the sidebar and a usable main pane no longer fit.
pub const MIN_FRAME_WIDTH: u16 = 50;

/// Below this height dialogs no longer fit.
pub const MIN_FRAME_HEIGHT: u16 = 12;

/// A frame this small shows a placeholder instead of the layout.
pub fn frame_too_small(width: u16, height: u16) -> (b: bool)
    ensures
        b == (width < MIN_FRAME_WIDTH || height < MIN_FRAME_HEIGHT),
{
    width < MIN_FRAME_WIDTH || height < MIN_FRAME_HEIGHT
}

pub open spec fn min_u16(a: u16, b: u16) -> u16 {
    if a <= b { a } else { b }
}

/// A box of `width` × `height` (cut to the area) centred in `area`,
/// leaning up and left by half a cell when the slack is odd.
pub fn centered_rect(width: u16, height: u16, area: Area) -> (r: Area)
    requires
        area.x + area.width <= u16::MAX,
        area.y + area.height <= u16::MAX,
    ensures
        r.width == min_u16(width, area.width),
        r.height == min_u16(height, area.height),
        r.x == area.x + (area.width - r.width) / 2,
        r.y == area.y + (area.height - r.height) / 2,
{
    let w = if width <= area.width { width } else { area.width };
    let h = if height <= area.height { height } else { area.height };
    let x = area.x + (area.width - w) / 2;
    let y = area.y + (area.height - h) / 2;
    Area { x, y, width: w, height: h }
}


/// The main pane's title: ` <repo> · <branch> ` for the active worktree,
/// ` grove ` when none is active.
pub open spec fn spec_main_pane_title<T>(app: AppState<T>) -> Seq<char> {
    match spec_active_id(app) {
        Some((r, w)) => seq![' '] + app.repos@[r as int].name@ + seq![' ', '·', ' ']
            + app.repos@[r as int].worktrees@[w as int].head.spec_label() + seq![' '],
        None => seq![' ', 'g', 'r', 'o', 'v', 'e', ' '],
    }
}

/// The title drawn on the main pane's border.
pub fn main_pane_title<T>(app: &AppState<T>) -> (s: String)
    ensures
        s@ == spec_main_pane_title(*app),
{
    let mut s = String::new();
    match app.active_worktree_id() {
        Some((r, w)) => {
            push_char(&mut s, ' ');
            push_str_chars(&mut s, app.repos[r].name.as_str());
            push_char(&mut s, ' ');
            push_char(&mut s, '·');
            push_char(&mut s, ' ');
            let label = app.repos[r].worktrees[w].head.label();
            push_str_chars(&mut s, label.as_str());
            push_char(&mut s, ' ');
            assert(s@ =~= spec_main_pane_title(*app));
        },
        None => {
            push_char(&mut s, ' ');
            push_char(&mut s, 'g');
            push_char(&mut s, 'r');
            push_char(&mut s, 'o');
            push_char(&mut s, 'v');
            push_char(&mut s, 'e');
            push_char(&mut s, ' ');
            assert(s@ =~= spec_main_pane_title(*app));
        },
    }
    s
}


/// Width of the new-worktree dialog.
pub const NEW_WORKTREE_DIALOG_WIDTH: usize = 70;

/// The new-worktree dialog's title, ` New worktree in <repo> `, cut to
/// the dialog's inner width less two columns.
pub open spec fn spec_new_worktree_title(repo: Seq<char>) -> Seq<char> {
    spec_truncate(
        seq![' ', 'N', 'e', 'w', ' ', 'w', 'o', 'r', 'k', 't', 'r', 'e', 'e', ' ', 'i', 'n', ' '] + repo + seq![' '],
        66,
    )
}

/// The title of the new-worktree dialog for repository `repo_name`.
pub fn new_worktree_title(repo_name: &str) -> (s: String)
    ensures
        s@ == spec_new_worktree_title(repo_name@),
{
    let mut t = string_of(" New worktree in ");
    proof {
        reveal_strlit(" New worktree in ");
    }
    push_str_chars(&mut t, repo_name);
    push_char(&mut t, ' ');
    assert(t@ =~= seq![' ', 'N', 'e', 'w', ' ', 'w', 'o', 'r', 'k', 't', 'r', 'e', 'e', ' ', 'i', 'n', ' '] + repo_name@ + seq![' ']);
    truncate_to_width(t.as_str(), 66)
}

/// The first row of the branch list: create a branch named after the
/// input, with a dimmed prompt while the input is empty.
pub open spec fn create_row(input: Seq<char>) -> Seq<(Seq<char>, Tone)> {
    seq![
        (seq!['C', 'r', 'e', 'a', 't', 'e', ' ', 'n', 'e', 'w', ' ', 'b', 'r', 'a', 'n', 'c', 'h', ' '], Tone::Plain),
        if input.len() == 0 {
            (seq!['(', 't', 'y', 'p', 'e', ' ', 'a', ' ', 'n', 'a', 'm', 'e', ')'], Tone::Dim)
        } else {
            (input, Tone::Plain)
        },
    ]
}

/// A branch's row: its display name, and ` [remote]` dimmed for a branch
/// that exists only on a remote.
pub open spec fn branch_row(b: BranchEntry) -> Seq<(Seq<char>, Tone)> {
    seq![(b.spec_display(), Tone::Plain)] + if b.remote.is_some() {
        seq![(seq![' ', '[', 'r', 'e', 'm', 'o', 't', 'e', ']'], Tone::Dim)]
    } else {
        Seq::empty()
    }
}

/// The rows of the new-worktree dialog's list: the create row, then the
/// branches that pass the filter, in order.
pub open spec fn spec_new_worktree_rows(input: Seq<char>, branches: Seq<BranchEntry>, matches: Seq<usize>) -> Seq<Seq<(Seq<char>, Tone)>> {
    seq![create_row(input)] + matches.map_values(|i: usize| branch_row(branches[i as int]))
}

/// The rows of the new-worktree dialog's list; row `k` is under the
/// cursor when `k == m.cursor`.
pub fn new_worktree_rows(m: &NewWorktreeModal) -> (v: Vec<Vec<Span>>)
    requires
        forall|k: int| 0 <= k < m.filter_matches@.len() ==> #[trigger] m.filter_matches@[k] < m.branches@.len(),
    ensures
        rows_views(v@) == spec_new_worktree_rows(m.input@.0, m.branches@, m.filter_matches@),
{
    let input = m.input.value();
    let mut first: Vec<Span> = Vec::new();
    first.push(Span { text: string_of("Create new branch "), tone: Tone::Plain });
    if input.as_str().unicode_len() == 0 {
        first.push(Span { text: string_of("(type a name)"), tone: Tone::Dim });
    } else {
        first.push(Span { text: input, tone: Tone::Plain });
    }
    proof {
        reveal_strlit("Create new branch ");
        reveal_strlit("(type a name)");
        assert("Create new branch "@ =~= seq!['C', 'r', 'e', 'a', 't', 'e', ' ', 'n', 'e', 'w', ' ', 'b', 'r', 'a', 'n', 'c', 'h', ' ']);
        assert("(type a name)"@ =~= seq!['(', 't', 'y', 'p', 'e', ' ', 'a', ' ', 'n', 'a', 'm', 'e', ')']);
    }
    assert(span_views(first@) =~= create_row(m.input@.0));
    let mut v: Vec<Vec<Span>> = Vec::new();
    v.push(first);
    let ghost rest = m.filter_matches@.map_values(|i: usize| branch_row(m.branches@[i as int]));
    assert(rows_views(v@) =~= seq![create_row(m.input@.0)] + rest.subrange(0, 0));
    let mut k: usize = 0;
    while k < m.filter_matches.len()
        invariant
            k <= m.filter_matches@.len(),
            forall|j: int| 0 <= j < m.filter_matches@.len() ==> #[trigger] m.filter_matches@[j] < m.branches@.len(),
            rest == m.filter_matches@.map_values(|i: usize| branch_row(m.branches@[i as int])),
            rows_views(v@) == seq![create_row(m.input@.0)] + rest.subrange(0, k as int),
        decreases m.filter_matches@.len() - k,
    {
        let b = &m.branches[m.filter_matches[k]];
        let mut row: Vec<Span> = Vec::new();
        row.push(Span { text: b.display(), tone: Tone::Plain });
        if b.is_remote_only() {
            row.push(Span { text: string_of(" [remote]"), tone: Tone::Dim });
            proof {
                reveal_strlit(" [remote]");
                assert(" [remote]"@ =~= seq![' ', '[', 'r', 'e', 'm', 'o', 't', 'e', ']']);
            }
        }
        assert(span_views(row@) =~= branch_row(*b));
        let ghost prev = v@;
        v.push(row);
        assert(rows_views(v@) =~= rows_views(prev).push(branch_row(*b)));
        assert(rest.subrange(0, k + 1) =~= rest.subrange(0, k as int).push(rest[k as int]));
        k += 1;
    }
    assert(rest.subrange(0, m.filter_matches@.len() as int) =~= rest);
    v
}


/// The rows of a dialog's error: the first after `  ! `, the others
/// indented to match, all red.
pub open spec fn error_rows(err: Seq<Seq<char>>) -> Seq<(Seq<char>, Tone)> {
    Seq::new(err.len(), |i: int| ((if i == 0 { seq![' ', ' ', '!', ' '] } else { seq![' ', ' ', ' ', ' '] }) + err[i], Tone::Red))
}

/// The spans of an error already wrapped into `err_lines`.
pub fn error_spans(err_lines: &Vec<String>) -> (v: Vec<Span>)
    ensures
        span_views(v@) == error_rows(string_views(err_lines@)),
{
    proof {
        reveal_strlit("  ! ");
        reveal_strlit("    ");
        assert("  ! "@ =~= seq![' ', ' ', '!', ' ']);
        assert("    "@ =~= seq![' ', ' ', ' ', ' ']);
    }
    let ghost want = error_rows(string_views(err_lines@));
    let mut v: Vec<Span> = Vec::new();
    let mut i: usize = 0;
    while i < err_lines.len()
        invariant
            i <= err_lines@.len(),
            want == error_rows(string_views(err_lines@)),
            span_views(v@) == want.subrange(0, i as int),
            "  ! "@ == seq![' ', ' ', '!', ' '],
            "    "@ == seq![' ', ' ', ' ', ' '],
        decreases err_lines@.len() - i,
    {
        let prefix = if i == 0 { "  ! " } else { "    " };
        let ghost before = v@;
        v.push(Span { text: cat(prefix, err_lines[i].as_str()), tone: Tone::Red });
        assert(span_views(v@) =~= span_views(before).push(want[i as int]));
        assert(want.subrange(0, i + 1) =~= want.subrange(0, i as int).push(want[i as int]));
        i += 1;
    }
    assert(want.subrange(0, err_lines@.len() as int) =~= want);
    v
}

/// Width of the add-repository dialog.
pub const ADD_REPO_DIALOG_WIDTH: usize = 62;

/// Columns an error line of the add-repository dialog may take: the
/// inner width less the four-column gutter.
pub const ADD_REPO_ERROR_WIDTH: usize = 56;

/// Most completions the add-repository dialog lists.
pub const ADD_REPO_MAX_COMPLETIONS: usize = 10;

/// How the add-repository dialog is laid out.
pub struct AddRepoView {
    pub title: String,
    /// Rows, borders included.
    pub height: u16,
    /// Completions listed, at most ten.
    pub shown: usize,
    /// The error's rows.
    pub errors: Vec<Span>,
    pub hint: String,
}

/// Completions listed out of `n`.
pub open spec fn add_repo_shown(n: nat) -> nat {
    if n < 10 { n } else { 10 }
}

/// Rows of the add-repository dialog: borders, the label and input with a
/// blank above, a blank, the error rows, a blank and the hint, and, with
/// completions, a separator and the completions.
pub open spec fn add_repo_height(shown: nat, err_rows: nat) -> nat {
    8 + (if shown > 0 { 1 + shown } else { 0nat }) + err_rows
}

pub open spec fn add_repo_hint(shown: nat) -> Seq<char> {
    if shown > 0 {
        seq![' ', ' ', '↑', '/', '↓', ' ', 'n', 'a', 'v', 'i', 'g', 'a', 't', 'e', ' ', ' ', '·', ' ', ' ', 'T', 'a', 'b', ' ', 's', 'e',
            'l', 'e', 'c', 't', ' ', ' ', '·', ' ', ' ', 'E', 'n', 't', 'e', 'r', ' ', 'a', 'd', 'd', ' ', ' ', '·', ' ', ' ', 'E', 's', 'c', ' ',
            'c', 'a', 'n', 'c', 'e', 'l']
    } else {
        seq![' ', ' ', 'E', 'n', 't', 'e', 'r', ' ', 't', 'o', ' ', 'a', 'd', 'd', ' ', ' ', '·', ' ', ' ', 'E', 's', 'c', ' ', 't', 'o',
            ' ', 'c', 'a', 'n', 'c', 'e', 'l']
    }
}

/// The error of a dialog, wrapped to `width` columns in at most
/// `ERROR_MAX_LINES` lines; nothing when there is no error.
pub open spec fn wrapped_error(error: Option<Seq<char>>, width: nat) -> Seq<Seq<char>> {
    match error {
        Some(e) => spec_wrap(e, width, 3),
        None => Seq::empty(),
    }
}

/// A dialog's error wrapped into lines of `width` columns.
pub fn wrapped_error_lines(error: Option<&str>, width: usize) -> (v: Vec<String>)
    ensures
        string_views(v@) == wrapped_error(opt_str_view(error), width as nat),
        v@.len() <= ERROR_MAX_LINES,
{
    match error {
        Some(e) => wrap_message(e, width, ERROR_MAX_LINES),
        None => {
            let v: Vec<String> = Vec::new();
            assert(string_views(v@) =~= Seq::<Seq<char>>::empty());
            v
        },
    }
}

/// The rows a dialog shows for its error, wrapped to `width` columns.
pub fn dialog_error(error: Option<&str>, width: usize) -> (v: Vec<Span>)
    ensures
        span_views(v@) == error_rows(wrapped_error(opt_str_view(error), width as nat)),
        v@.len() <= ERROR_MAX_LINES,
{
    let lines = wrapped_error_lines(error, width);
    let v = error_spans(&lines);
    assert(span_views(v@).len() == v@.len());
    assert(string_views(lines@).len() == lines@.len());
    v
}

/// The add-repository dialog with `completions` completions on offer and
/// the error `error`, if any.
pub fn add_repo_dialog(completions: usize, error: Option<&str>) -> (d: AddRepoView)
    ensures
        d.title@ == seq![' ', 'A', 'd', 'd', ' ', 'r', 'e', 'p', 'o', 's', 'i', 't', 'o', 'r', 'y', ' '],
        d.shown == add_repo_shown(completions as nat),
        span_views(d.errors@) == error_rows(wrapped_error(opt_str_view(error), ADD_REPO_ERROR_WIDTH as nat)),
        d.height == add_repo_height(d.shown as nat, d.errors@.len()),
        d.hint@ == add_repo_hint(d.shown as nat),
{
    let shown = if completions < ADD_REPO_MAX_COMPLETIONS { completions } else { ADD_REPO_MAX_COMPLETIONS };
    let errors = dialog_error(error, ADD_REPO_ERROR_WIDTH);
    let mut height: u16 = 8;
    if shown > 0 {
        height = height + 1 + shown as u16;
    }
    height = height + errors.len() as u16;
    let title = string_of(" Add repository ");
    let hint = if shown > 0 {
        string_of("  ↑/↓ navigate  ·  Tab select  ·  Enter add  ·  Esc cancel")
    } else {
        string_of("  Enter to add  ·  Esc to cancel")
    };
    proof {
        reveal_strlit(" Add repository ");
        reveal_strlit("  ↑/↓ navigate  ·  Tab select  ·  Enter add  ·  Esc cancel");
        reveal_strlit("  Enter to add  ·  Esc to cancel");
        assert(title@ =~= seq![' ', 'A', 'd', 'd', ' ', 'r', 'e', 'p', 'o', 's', 'i', 't', 'o', 'r', 'y', ' ']);
        assert(hint@ =~= add_repo_hint(shown as nat));
    }
    AddRepoView { title, height, shown, errors, hint }
}

/// Columns an error line of the new-worktree dialog may take: the inner
/// width less the four-column gutter.
pub const NEW_WORKTREE_ERROR_WIDTH: usize = 64;

/// Rows of the branch list of the new-worktree dialog.
pub const NEW_WORKTREE_VISIBLE_ROWS: usize = 10;

/// How the new-worktree dialog is laid out.
pub struct NewWorktreeView {
    pub title: String,
    /// Rows, borders included: the label and input with a blank above, a
    /// separator, the list, a blank, the error rows, a blank and the hint.
    pub height: u16,
    pub rows: Vec<Vec<Span>>,
    pub errors: Vec<Span>,
}

/// The new-worktree dialog for repository `repo_name`.
pub fn new_worktree_dialog(m: &NewWorktreeModal, repo_name: &str) -> (d: NewWorktreeView)
    requires
        forall|k: int| 0 <= k < m.filter_matches@.len() ==> #[trigger] m.filter_matches@[k] < m.branches@.len(),
    ensures
        d.title@ == spec_new_worktree_title(repo_name@),
        rows_views(d.rows@) == spec_new_worktree_rows(m.input@.0, m.branches@, m.filter_matches@),
        span_views(d.errors@) == error_rows(
            wrapped_error(
                match m.error {
                    Some(e) => Some(e@),
                    None => None,
                },
                NEW_WORKTREE_ERROR_WIDTH as nat,
            ),
        ),
        d.height == 19 + d.errors@.len(),
{
    let errors = match &m.error {
        Some(e) => dialog_error(Some(e.as_str()), NEW_WORKTREE_ERROR_WIDTH),
        None => dialog_error(None, NEW_WORKTREE_ERROR_WIDTH),
    };
    let height = 19 + errors.len() as u16;
    NewWorktreeView { title: new_worktree_title(repo_name), height, rows: new_worktree_rows(m), errors }
}

} // verus!
