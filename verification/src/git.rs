//! What grove makes of git's answers: diff files and hunks, working-tree
//! counts, branch lists, and where new worktrees go.

use vstd::prelude::*;

use crate::model::{HeadRef, Worktree, WorktreeStatus};
use crate::pathinput::{lemma_insert_keeps_sorted, lemma_lex_total, lemma_lex_trans, lex_le, lex_less, lex_lt, lex_sorted};
use crate::text::{chars_of, push_char, str_eq, string_from_chars, string_of};

verus! {

#[derive(Debug, PartialEq, Eq)]
pub struct DiffFile {
    pub path: String,
    pub staged: bool,
    pub adds: u32,
    pub dels: u32,
    pub kind: DeltaKind,
    pub hunks: Vec<DiffHunk>,
}

#[derive(Debug, Clone, Copy, PartialEq, Eq, Structural)]
pub enum DeltaKind {
    Added,
    Modified,
    Deleted,
    Renamed,
    Other,
}

#[derive(Debug, PartialEq, Eq)]
pub struct DiffHunk {
    pub header: String,
    pub lines: Vec<DiffLine>,
}

#[derive(Debug, PartialEq, Eq)]
pub struct DiffLine {
    pub kind: DiffLineKind,
    pub content: String,
}

#[derive(Debug, Clone, Copy, PartialEq, Eq, Structural)]
pub enum DiffLineKind {
    Context,
    Add,
    Del,
}

/// One callback of a diff walk: a new file, a new hunk in the current
/// file, or a line of the current hunk (with git's origin character).
pub enum DiffEvent {
    File { path: String, kind: DeltaKind },
    Hunk { header: String },
    Line { origin: char, content: String },
}

pub open spec fn line_kind(origin: char) -> DiffLineKind {
    if origin == '+' {
        DiffLineKind::Add
    } else if origin == '-' {
        DiffLineKind::Del
    } else {
        DiffLineKind::Context
    }
}

/// `s` without its trailing newlines.
pub open spec fn strip_newlines(s: Seq<char>) -> Seq<char>
    decreases s.len(),
{
    if s.len() > 0 && s.last() == '\n' {
        strip_newlines(s.drop_last())
    } else {
        s
    }
}

/// A diff file as the walk shows it: path, staged flag, counts, kind,
/// and each hunk as its header and its `(kind, content)` lines.
pub struct FileView {
    pub path: Seq<char>,
    pub staged: bool,
    pub adds: int,
    pub dels: int,
    pub kind: DeltaKind,
    pub hunks: Seq<(Seq<char>, Seq<(DiffLineKind, Seq<char>)>)>,
}

pub open spec fn view_line(l: DiffLine) -> (DiffLineKind, Seq<char>) {
    (l.kind, l.content@)
}

pub open spec fn view_hunk(h: DiffHunk) -> (Seq<char>, Seq<(DiffLineKind, Seq<char>)>) {
    (h.header@, h.lines@.map_values(|l: DiffLine| view_line(l)))
}

pub open spec fn view_file(f: DiffFile) -> FileView {
    FileView {
        path: f.path@,
        staged: f.staged,
        adds: f.adds as int,
        dels: f.dels as int,
        kind: f.kind,
        hunks: f.hunks@.map_values(|h: DiffHunk| view_hunk(h)),
    }
}

/// The effect of one walk event on the files collected so far: a file
/// event starts a new file; a hunk event opens a hunk in the last file; a
/// line event adds a line to the last hunk of the last file and counts it
/// as an addition or deletion.  Events with nothing to attach to are
/// ignored.
pub open spec fn apply_event(files: Seq<FileView>, e: DiffEvent, staged: bool) -> Seq<FileView> {
    match e {
        DiffEvent::File { path, kind } => files.push(
            FileView { path: path@, staged, adds: 0, dels: 0, kind, hunks: Seq::empty() },
        ),
        DiffEvent::Hunk { header } => if files.len() == 0 {
            files
        } else {
            let f = files.last();
            files.update(
                files.len() - 1,
                FileView { hunks: f.hunks.push((header@, Seq::empty())), ..f },
            )
        },
        DiffEvent::Line { origin, content } => if files.len() == 0 || files.last().hunks.len() == 0 {
            files
        } else {
            let f = files.last();
            let h = f.hunks.last();
            let k = line_kind(origin);
            files.update(
                files.len() - 1,
                FileView {
                    hunks: f.hunks.update(
                        f.hunks.len() - 1,
                        (h.0, h.1.push((k, strip_newlines(content@)))),
                    ),
                    adds: if k == DiffLineKind::Add { f.adds + 1 } else { f.adds },
                    dels: if k == DiffLineKind::Del { f.dels + 1 } else { f.dels },
                    ..f
                },
            )
        },
    }
}

/// The files a walk of `events` produces.
pub open spec fn collect_events(events: Seq<DiffEvent>, staged: bool) -> Seq<FileView>
    decreases events.len(),
{
    if events.len() == 0 {
        Seq::empty()
    } else {
        apply_event(collect_events(events.drop_last(), staged), events.last(), staged)
    }
}

/// How many file events `events` holds.
pub open spec fn file_events(events: Seq<DiffEvent>) -> nat
    decreases events.len(),
{
    if events.len() == 0 {
        0
    } else {
        file_events(events.drop_last()) + if events.last() is File { 1nat } else { 0nat }
    }
}

/// How many hunk events follow the last file event.
pub open spec fn hunks_since_file(events: Seq<DiffEvent>) -> nat
    decreases events.len(),
{
    if events.len() == 0 {
        0
    } else {
        match events.last() {
            DiffEvent::File { .. } => 0,
            DiffEvent::Hunk { .. } => hunks_since_file(events.drop_last()) + 1,
            DiffEvent::Line { .. } => hunks_since_file(events.drop_last()),
        }
    }
}

/// The header of the last hunk event after the last file event.
pub open spec fn last_hunk_header(events: Seq<DiffEvent>) -> Seq<char>
    decreases events.len(),
{
    if events.len() == 0 {
        Seq::empty()
    } else {
        match events.last() {
            DiffEvent::Hunk { header } => header@,
            _ => last_hunk_header(events.drop_last()),
        }
    }
}

/// How many line events follow the last hunk event of the last file.
pub open spec fn lines_since_hunk(events: Seq<DiffEvent>) -> nat
    decreases events.len(),
{
    if events.len() == 0 {
        0
    } else {
        match events.last() {
            DiffEvent::Line { .. } => lines_since_hunk(events.drop_last()) + 1,
            _ => 0,
        }
    }
}

/// How many line events with origin `origin` follow the last file event
/// and some hunk event after it.
pub open spec fn lines_with_origin_since_file(events: Seq<DiffEvent>, origin: char) -> nat
    decreases events.len(),
{
    if events.len() == 0 {
        0
    } else {
        let prev = lines_with_origin_since_file(events.drop_last(), origin);
        match events.last() {
            DiffEvent::File { .. } => 0,
            DiffEvent::Hunk { .. } => prev,
            DiffEvent::Line { origin: o, .. } => prev + if o == origin && hunks_since_file(events.drop_last()) > 0 {
                1nat
            } else {
                0nat
            },
        }
    }
}

/// What a diff walk builds, counted off its events: one file per file
/// event; the last file has one hunk per hunk event after its file event;
/// and its last hunk bears the header of the last of those hunk events
/// and holds one line per line event after it.
pub proof fn law_diff_counts(events: Seq<DiffEvent>, staged: bool)
    ensures
        collect_events(events, staged).len() == file_events(events),
        file_events(events) > 0 ==> collect_events(events, staged).last().hunks.len() == hunks_since_file(events),
        file_events(events) > 0 && hunks_since_file(events) > 0 ==> collect_events(events, staged).last().hunks.last().0
            == last_hunk_header(events) && collect_events(events, staged).last().hunks.last().1.len() == lines_since_hunk(
            events,
        ),
        file_events(events) > 0 ==> collect_events(events, staged).last().adds == lines_with_origin_since_file(events, '+')
            && collect_events(events, staged).last().dels == lines_with_origin_since_file(events, '-'),
        (file_events(events) > 0 && hunks_since_file(events) > 0 && events.len() > 0) ==> (match events.last() {
            DiffEvent::Line { origin, content } => collect_events(events, staged).last().hunks.last().1.last() == (
                line_kind(origin),
                strip_newlines(content@),
            ),
            _ => true,
        }),
    decreases events.len(),
{
    if events.len() > 0 {
        let pre = events.drop_last();
        law_diff_counts(pre, staged);
        let p = collect_events(pre, staged);
        let c = collect_events(events, staged);
        assert(c == apply_event(p, events.last(), staged));
        match events.last() {
            DiffEvent::File { .. } => {},
            DiffEvent::Hunk { header } => {
                if p.len() > 0 {
                    assert(c.last().hunks == p.last().hunks.push((header@, Seq::empty())));
                }
            },
            DiffEvent::Line { origin, content } => {
                if p.len() > 0 && p.last().hunks.len() > 0 {
                    assert(c.last().hunks.len() == p.last().hunks.len());
                    assert(c.last().hunks.last().0 == p.last().hunks.last().0);
                }
            },
        }
    }
}

/// A walk event only ever changes the last file: every file before it
/// stays as it was, and a file event leaves all files so far alone.
pub proof fn law_diff_earlier_files_stay(events: Seq<DiffEvent>, e: DiffEvent, staged: bool)
    ensures
        collect_events(events.push(e), staged).len() >= collect_events(events, staged).len(),
        forall|j: int|
            0 <= j < collect_events(events, staged).len() - (if e is File { 0int } else { 1int }) ==> #[trigger] collect_events(
                events.push(e),
                staged,
            )[j] == collect_events(events, staged)[j],
{
    assert(events.push(e).drop_last() =~= events);
}

fn strip_trailing_newlines(s: &str) -> (r: String)
    ensures
        r@ == strip_newlines(s@),
{
    let v = chars_of(s);
    let mut n = v.len();
    assert(v@.subrange(0, n as int) =~= v@);
    while n > 0 && v[n - 1] == '\n'
        invariant
            n <= v@.len(),
            strip_newlines(v@.subrange(0, n as int)) == strip_newlines(v@),
        decreases n,
    {
        assert(v@.subrange(0, n as int).drop_last() =~= v@.subrange(0, n - 1));
        n -= 1;
    }
    assert(v@.subrange(0, v@.len() as int) =~= v@);
    string_from_chars(&v, 0, n)
}

pub open spec fn view_files(s: Seq<DiffFile>) -> Seq<FileView> {
    s.map_values(|f: DiffFile| view_file(f))
}

proof fn lemma_counts_bounded(events: Seq<DiffEvent>, staged: bool)
    ensures
        forall|j: int| 0 <= j < collect_events(events, staged).len() ==> 0 <= #[trigger] collect_events(events, staged)[j].adds <= events.len() && 0 <= collect_events(events, staged)[j].dels <= events.len(),
    decreases events.len(),
{
    if events.len() > 0 {
        let prev = events.drop_last();
        lemma_counts_bounded(prev, staged);
        let p = collect_events(prev, staged);
        let c = collect_events(events, staged);
        assert(c == apply_event(p, events.last(), staged));
        assert forall|j: int| 0 <= j < c.len() implies 0 <= #[trigger] c[j].adds <= events.len() && 0 <= c[j].dels <= events.len() by {
            if j < p.len() && j != p.len() - 1 {
                assert(c[j] == p[j]);
            }
        }
    }
}

/// Turn the events of one diff walk into files, appended to `out`.
pub fn collect_diff(events: &Vec<DiffEvent>, staged: bool, out: &mut Vec<DiffFile>)
    requires
        events@.len() < u32::MAX,
    ensures
        view_files(final(out)@) == view_files(old(out)@) + collect_events(events@, staged),
{
    let mut scratch: Vec<DiffFile> = Vec::new();
    let mut i: usize = 0;
    while i < events.len()
        invariant
            i <= events@.len() < u32::MAX,
            view_files(scratch@) == collect_events(events@.subrange(0, i as int), staged),
        decreases events@.len() - i,
    {
        let ghost before = view_files(scratch@);
        proof {
            assert(events@.subrange(0, i + 1).drop_last() =~= events@.subrange(0, i as int));
            lemma_counts_bounded(events@.subrange(0, i as int), staged);
        }
        match &events[i] {
            DiffEvent::File { path, kind } => {
                scratch.push(DiffFile { path: path.clone(), staged, adds: 0, dels: 0, kind: *kind, hunks: Vec::new() });
                proof {
                    let nf = view_file(scratch@.last());
                    assert(nf.hunks =~= Seq::empty());
                    assert(view_files(scratch@) =~= before.push(nf));
                }
            },
            DiffEvent::Hunk { header } => {
                if scratch.len() > 0 {
                    let mut f = scratch.pop().unwrap();
                    let ghost fv = view_file(f);
                    f.hunks.push(DiffHunk { header: header.clone(), lines: Vec::new() });
                    proof {
                        assert(view_hunk(f.hunks@.last()).1 =~= Seq::empty());
                        assert(view_file(f).hunks =~= fv.hunks.push((header@, Seq::empty())));
                    }
                    scratch.push(f);
                    proof {
                        assert(view_files(scratch@) =~= before.update(before.len() - 1, view_file(f)));
                    }
                }
            },
            DiffEvent::Line { origin, content } => {
                let has_hunk = scratch.len() > 0 && scratch[scratch.len() - 1].hunks.len() > 0;
                if has_hunk {
                    let mut f = scratch.pop().unwrap();
                    let ghost fv = view_file(f);
                    let mut h = f.hunks.pop().unwrap();
                    let ghost hv = view_hunk(h);
                    let kind = if *origin == '+' {
                        DiffLineKind::Add
                    } else if *origin == '-' {
                        DiffLineKind::Del
                    } else {
                        DiffLineKind::Context
                    };
                    h.lines.push(DiffLine { kind, content: strip_trailing_newlines(content.as_str()) });
                    proof {
                        assert(view_hunk(h).1 =~= hv.1.push((kind, strip_newlines(content@))));
                    }
                    f.hunks.push(h);
                    match kind {
                        DiffLineKind::Add => {
                            f.adds = f.adds + 1;
                        },
                        DiffLineKind::Del => {
                            f.dels = f.dels + 1;
                        },
                        DiffLineKind::Context => {},
                    }
                    proof {
                        assert(view_file(f).hunks =~= fv.hunks.update(fv.hunks.len() - 1, (hv.0, hv.1.push((kind, strip_newlines(content@))))));
                    }
                    scratch.push(f);
                    proof {
                        assert(view_files(scratch@) =~= before.update(before.len() - 1, view_file(f)));
                    }
                }
            },
        }
        i += 1;
    }
    assert(events@.subrange(0, events@.len() as int) =~= events@);
    let ghost start = out@;
    out.append(&mut scratch);
    assert(view_files(out@) =~= view_files(start) + collect_events(events@, staged));
}

/// The status flags git reports for one changed path.
#[derive(Debug, Clone, Copy, PartialEq, Eq, Structural)]
pub struct EntryStatus {
    pub conflicted: bool,
    pub index_new: bool,
    pub index_modified: bool,
    pub index_deleted: bool,
    pub index_renamed: bool,
    pub index_typechange: bool,
    pub wt_modified: bool,
    pub wt_deleted: bool,
    pub wt_renamed: bool,
    pub wt_typechange: bool,
}

pub open spec fn counts_staged(e: EntryStatus) -> bool {
    !e.conflicted && (e.index_new || e.index_modified || e.index_renamed || e.index_typechange)
}

pub open spec fn counts_modified(e: EntryStatus) -> bool {
    !e.conflicted && (e.wt_modified || e.wt_renamed || e.wt_typechange)
}

pub open spec fn counts_deleted(e: EntryStatus) -> bool {
    !e.conflicted && (e.index_deleted || e.wt_deleted)
}

/// How many of `s` satisfy `p`.
pub open spec fn count_where(s: Seq<EntryStatus>, p: spec_fn(EntryStatus) -> bool) -> nat
    decreases s.len(),
{
    if s.len() == 0 {
        0
    } else {
        count_where(s.drop_last(), p) + if p(s.last()) { 1nat } else { 0nat }
    }
}

proof fn lemma_count_bound(s: Seq<EntryStatus>, p: spec_fn(EntryStatus) -> bool)
    ensures
        count_where(s, p) <= s.len(),
    decreases s.len(),
{
    if s.len() > 0 {
        lemma_count_bound(s.drop_last(), p);
    }
}

proof fn lemma_count_is_filter(s: Seq<EntryStatus>, p: spec_fn(EntryStatus) -> bool, q: spec_fn(EntryStatus) -> bool)
    requires
        forall|e: EntryStatus| #[trigger] p(e) == q(e),
    ensures
        count_where(s, p) == s.filter(q).len(),
    decreases s.len(),
{
    reveal(Seq::filter);
    if s.len() > 0 {
        lemma_count_is_filter(s.drop_last(), p, q);
    }
}

/// The badge counts of a worktree, in terms of git's flags for each
/// changed path: conflicts are the conflicted paths; of the others, a path
/// is staged when it is new, modified, renamed or retyped in the index,
/// modified when it is modified, renamed or retyped in the working tree,
/// and deleted when it is deleted in the index (`git rm`) or in the
/// working tree.
pub proof fn law_tally_counts_by_flags(entries: Seq<EntryStatus>)
    ensures
        count_where(entries, |e: EntryStatus| e.conflicted) == entries.filter(|e: EntryStatus| e.conflicted).len(),
        count_where(entries, |e: EntryStatus| counts_staged(e)) == entries.filter(
            |e: EntryStatus| !e.conflicted && (e.index_new || e.index_modified || e.index_renamed || e.index_typechange),
        ).len(),
        count_where(entries, |e: EntryStatus| counts_modified(e)) == entries.filter(
            |e: EntryStatus| !e.conflicted && (e.wt_modified || e.wt_renamed || e.wt_typechange),
        ).len(),
        count_where(entries, |e: EntryStatus| counts_deleted(e)) == entries.filter(
            |e: EntryStatus| !e.conflicted && (e.index_deleted || e.wt_deleted),
        ).len(),
{
    lemma_count_is_filter(entries, |e: EntryStatus| e.conflicted, |e: EntryStatus| e.conflicted);
    lemma_count_is_filter(
        entries,
        |e: EntryStatus| counts_staged(e),
        |e: EntryStatus| !e.conflicted && (e.index_new || e.index_modified || e.index_renamed || e.index_typechange),
    );
    lemma_count_is_filter(
        entries,
        |e: EntryStatus| counts_modified(e),
        |e: EntryStatus| !e.conflicted && (e.wt_modified || e.wt_renamed || e.wt_typechange),
    );
    lemma_count_is_filter(
        entries,
        |e: EntryStatus| counts_deleted(e),
        |e: EntryStatus| !e.conflicted && (e.index_deleted || e.wt_deleted),
    );
}

/// Working-tree counts from the status of each changed path: a conflicted
/// path counts only as a conflict; otherwise a path counts as staged,
/// modified and/or deleted by its flags.  `ahead` and `behind` are the
/// commit counts against the upstream, truncated to `u32`.
pub fn tally_status(entries: &Vec<EntryStatus>, ahead: usize, behind: usize) -> (s: WorktreeStatus)
    requires
        entries@.len() < u32::MAX,
    ensures
        s.conflicts == count_where(entries@, |e: EntryStatus| e.conflicted),
        s.staged == count_where(entries@, |e: EntryStatus| counts_staged(e)),
        s.modified == count_where(entries@, |e: EntryStatus| counts_modified(e)),
        s.deleted == count_where(entries@, |e: EntryStatus| counts_deleted(e)),
        s.conflicts == entries@.filter(|e: EntryStatus| e.conflicted).len(),
        s.staged == entries@.filter(
            |e: EntryStatus| !e.conflicted && (e.index_new || e.index_modified || e.index_renamed || e.index_typechange),
        ).len(),
        s.modified == entries@.filter(|e: EntryStatus| !e.conflicted && (e.wt_modified || e.wt_renamed || e.wt_typechange)).len(),
        s.deleted == entries@.filter(|e: EntryStatus| !e.conflicted && (e.index_deleted || e.wt_deleted)).len(),
        s.ahead == ahead as u32,
        s.behind == behind as u32,
{
    let mut out = WorktreeStatus::zero();
    let mut i: usize = 0;
    while i < entries.len()
        invariant
            i <= entries@.len() < u32::MAX,
            out.conflicts == count_where(entries@.subrange(0, i as int), |e: EntryStatus| e.conflicted),
            out.staged == count_where(entries@.subrange(0, i as int), |e: EntryStatus| counts_staged(e)),
            out.modified == count_where(entries@.subrange(0, i as int), |e: EntryStatus| counts_modified(e)),
            out.deleted == count_where(entries@.subrange(0, i as int), |e: EntryStatus| counts_deleted(e)),
        decreases entries@.len() - i,
    {
        proof {
            let p = entries@.subrange(0, i as int);
            assert(entries@.subrange(0, i + 1).drop_last() =~= p);
            lemma_count_bound(p, |e: EntryStatus| e.conflicted);
            lemma_count_bound(p, |e: EntryStatus| counts_staged(e));
            lemma_count_bound(p, |e: EntryStatus| counts_modified(e));
            lemma_count_bound(p, |e: EntryStatus| counts_deleted(e));
        }
        let e = entries[i];
        if e.conflicted {
            out.conflicts = out.conflicts + 1;
        } else {
            if e.index_new || e.index_modified || e.index_renamed || e.index_typechange {
                out.staged = out.staged + 1;
            }
            if e.wt_modified || e.wt_renamed || e.wt_typechange {
                out.modified = out.modified + 1;
            }
            if e.index_deleted || e.wt_deleted {
                out.deleted = out.deleted + 1;
            }
        }
        i += 1;
    }
    assert(entries@.subrange(0, entries@.len() as int) =~= entries@);
    proof {
        law_tally_counts_by_flags(entries@);
    }
    out.ahead = ahead as u32;
    out.behind = behind as u32;
    out
}

/// A branch that a new worktree can be made from: a local branch, or a
/// branch of a remote that has no local branch of the same name.
#[derive(Debug, PartialEq, Eq)]
pub struct BranchEntry {
    pub name: String,
    pub remote: Option<String>,
}

impl Clone for BranchEntry {
    fn clone(&self) -> (r: Self)
        ensures
            r == *self,
    {
        BranchEntry { name: self.name.clone(), remote: crate::config::copy_opt_string(&self.remote) }
    }
}

impl BranchEntry {
    pub open spec fn spec_display(&self) -> Seq<char> {
        match self.remote {
            None => self.name@,
            Some(r) => r@ + seq!['/'] + self.name@,
        }
    }

    /// `name`, or `remote/name` for a remote branch.
    pub fn display(&self) -> (s: String)
        ensures
            s@ == self.spec_display(),
    {
        match &self.remote {
            None => self.name.clone(),
            Some(r) => {
                let mut s = r.clone();
                push_char(&mut s, '/');
                s.append(self.name.as_str());
                s
            },
        }
    }

    pub fn is_remote_only(&self) -> (b: bool)
        ensures
            b == self.remote.is_some(),
    {
        self.remote.is_some()
    }
}

/// Position of the first `c` in `s`, if any.
pub open spec fn first_pos(s: Seq<char>, c: char) -> Option<int> {
    if exists|i: int| 0 <= i < s.len() && s[i] == c {
        Some(choose|i: int| 0 <= i < s.len() && s[i] == c && forall|j: int| 0 <= j < i ==> s[j] != c)
    } else {
        None
    }
}

/// Index of the first `c` in `v`.
pub fn find_char(v: &Vec<char>, c: char) -> (r: Option<usize>)
    ensures
        match r {
            Some(i) => i < v@.len() && v@[i as int] == c && forall|j: int| 0 <= j < i ==> v@[j] != c,
            None => forall|j: int| 0 <= j < v@.len() ==> v@[j] != c,
        },
{
    let mut i: usize = 0;
    while i < v.len()
        invariant
            i <= v@.len(),
            forall|j: int| 0 <= j < i ==> v@[j] != c,
        decreases v@.len() - i,
    {
        if v[i] == c {
            return Some(i);
        }
        i += 1;
    }
    None
}

/// Index of the last `c` in `v`.
pub fn rfind_char(v: &Vec<char>, c: char) -> (r: Option<usize>)
    ensures
        match r {
            Some(i) => i < v@.len() && v@[i as int] == c && forall|j: int| i < j < v@.len() ==> v@[j] != c,
            None => forall|j: int| 0 <= j < v@.len() ==> v@[j] != c,
        },
{
    let mut i: usize = v.len();
    while i > 0
        invariant
            i <= v@.len(),
            forall|j: int| i <= j < v@.len() ==> v@[j] != c,
        decreases i,
    {
        if v[i - 1] == c {
            return Some(i - 1);
        }
        i -= 1;
    }
    None
}

/// The `(remote, branch)` parts of a remote branch's full name, split at
/// its first `/`.
pub open spec fn split_remote(full: Seq<char>) -> Option<(Seq<char>, Seq<char>)> {
    if exists|i: int| 0 <= i < full.len() && full[i] == '/' {
        let i = choose|i: int| 0 <= i < full.len() && full[i] == '/' && forall|j: int| 0 <= j < i ==> full[j] != '/';
        Some((full.subrange(0, i), full.subrange(i + 1, full.len() as int)))
    } else {
        None
    }
}

pub open spec fn head_name() -> Seq<char> {
    seq!['H', 'E', 'A', 'D']
}

/// Some local name equals `n`.
pub open spec fn has_local(locals: Seq<String>, n: Seq<char>) -> bool {
    exists|i: int| 0 <= i < locals.len() && #[trigger] locals[i]@ == n
}

/// The branch entry a remote branch's full name contributes, if any: it
/// must split into `remote/branch`, not be `HEAD`, and have no local
/// branch of the same name.
pub open spec fn remote_entry(locals: Seq<String>, full: Seq<char>) -> Option<(Seq<char>, Seq<char>)> {
    match split_remote(full) {
        Some((r, b)) => if b != head_name() && !has_local(locals, b) { Some((r, b)) } else { None },
        None => None,
    }
}

fn split_remote_exec(full: &str) -> (r: Option<(String, String)>)
    ensures
        match r {
            Some((a, b)) => split_remote(full@) == Some((a@, b@)),
            None => split_remote(full@).is_none(),
        },
{
    let v = chars_of(full);
    match find_char(&v, '/') {
        Some(i) => {
            let len = v.len();
            let a = string_from_chars(&v, 0, i);
            let b = string_from_chars(&v, i + 1, len);
            proof {
                let j = choose|j: int| 0 <= j < full@.len() && full@[j] == '/' && forall|k: int| 0 <= k < j ==> full@[k] != '/';
                assert(j == i);
            }
            Some((a, b))
        },
        None => None,
    }
}

/// The branch list offered when creating a worktree: every local branch,
/// then each remote branch that `remote_entry` admits, both in the order
/// given.
pub fn merge_branch_lists(locals: &Vec<String>, remotes: &Vec<String>) -> (out: Vec<BranchEntry>)
    ensures
        out@.len() >= locals@.len(),
        forall|i: int| 0 <= i < locals@.len() ==> #[trigger] out@[i].name@ == locals@[i]@ && out@[i].remote.is_none(),
        forall|i: int| locals@.len() <= i < out@.len() ==> (#[trigger] out@[i]).remote.is_some(),
        out@.subrange(locals@.len() as int, out@.len() as int).map_values(|e: BranchEntry| (e.remote.unwrap()@, e.name@))
            == remotes@.map_values(|f: String| remote_entry(locals@, f@)).filter(|o: Option<(Seq<char>, Seq<char>)>| o.is_some()).map_values(|o: Option<(Seq<char>, Seq<char>)>| o.unwrap()),
{
    let mut out: Vec<BranchEntry> = Vec::new();
    let mut i: usize = 0;
    while i < locals.len()
        invariant
            i <= locals@.len(),
            out@.len() == i,
            forall|j: int| 0 <= j < i ==> (#[trigger] out@[j]).name@ == locals@[j]@ && out@[j].remote.is_none(),
        decreases locals@.len() - i,
    {
        out.push(BranchEntry { name: locals[i].clone(), remote: None });
        i += 1;
    }
    let n = out.len();
    assert(forall|j: int| 0 <= j < n ==> (#[trigger] out@[j]).name@ == locals@[j]@ && out@[j].remote.is_none());
    let ghost sel = |o: Option<(Seq<char>, Seq<char>)>| o.is_some();
    let ghost un = |o: Option<(Seq<char>, Seq<char>)>| o.unwrap();
    let ghost mp = |f: String| remote_entry(locals@, f@);
    let ghost ev = |e: BranchEntry| (e.remote.unwrap()@, e.name@);
    let mut k: usize = 0;
    while k < remotes.len()
        invariant
            k <= remotes@.len(),
            n == locals@.len(),
            out@.len() >= n,
            sel == (|o: Option<(Seq<char>, Seq<char>)>| o.is_some()),
            un == (|o: Option<(Seq<char>, Seq<char>)>| o.unwrap()),
            mp == (|f: String| remote_entry(locals@, f@)),
            ev == (|e: BranchEntry| (e.remote.unwrap()@, e.name@)),
            forall|j: int| 0 <= j < n ==> (#[trigger] out@[j]).name@ == locals@[j]@ && out@[j].remote.is_none(),
            forall|j: int| n <= j < out@.len() ==> (#[trigger] out@[j]).remote.is_some(),
            out@.subrange(n as int, out@.len() as int).map_values(ev) == remotes@.subrange(0, k as int).map_values(mp).filter(sel).map_values(un),
        decreases remotes@.len() - k,
    {
        let ghost before = out@;
        proof {
            let x = remotes@[k as int];
            assert(remotes@.subrange(0, k + 1).map_values(mp) =~= remotes@.subrange(0, k as int).map_values(mp).push(mp(x)));
            remotes@.subrange(0, k as int).map_values(mp).lemma_filter_push(mp(x), sel);
        }
        match split_remote_exec(remotes[k].as_str()) {
            Some((remote, branch)) => {
                let is_head = str_eq(branch.as_str(), "HEAD");
                proof {
                    reveal_strlit("HEAD");
                }
                let mut local = false;
                let mut j: usize = 0;
                while j < locals.len()
                    invariant
                        j <= locals@.len(),
                        local == exists|t: int| 0 <= t < j && #[trigger] locals@[t]@ == branch@,
                    decreases locals@.len() - j,
                {
                    if str_eq(locals[j].as_str(), branch.as_str()) {
                        local = true;
                    }
                    j += 1;
                }
                proof {
                    assert(local == has_local(locals@, branch@));
                    assert(mp(remotes@[k as int]) == remote_entry(locals@, remotes@[k as int]@));
                }
                let ghost x = remotes@[k as int];
                let ghost pf = remotes@.subrange(0, k as int).map_values(mp).filter(sel);
                proof {
                    reveal_strlit("HEAD");
                    assert("HEAD"@ =~= head_name());
                    assert(is_head == (branch@ == head_name()));
                }
                if !is_head && !local {
                    out.push(BranchEntry { name: branch, remote: Some(remote) });
                    proof {
                        assert(sel(mp(x)));
                        assert(pf.push(mp(x)).map_values(un) =~= pf.map_values(un).push(un(mp(x))));
                        assert(out@[out@.len() - 1].remote.is_some());
                        assert(out@.subrange(n as int, out@.len() as int) =~= before.subrange(n as int, before.len() as int).push(out@.last()));
                        assert(out@.subrange(n as int, out@.len() as int).map_values(ev) =~= before.subrange(n as int, before.len() as int).map_values(ev).push(ev(out@.last())));
                    }
                }
            },
            None => {},
        }
        k += 1;
    }
    assert(remotes@.subrange(0, remotes@.len() as int) =~= remotes@);
    out
}

/// `base` joined with the relative component `name`.
pub open spec fn path_join(base: Seq<char>, name: Seq<char>) -> Seq<char> {
    if base.len() == 0 {
        name
    } else if base.last() == '/' {
        base + name
    } else {
        base.push('/') + name
    }
}

pub fn join_path(base: &str, name: &str) -> (r: String)
    ensures
        r@ == path_join(base@, name@),
{
    let n = base.unicode_len();
    if n == 0 {
        return string_of(name);
    }
    let mut r = string_of(base);
    if base.get_char(n - 1) != '/' {
        push_char(&mut r, '/');
    }
    r.append(name);
    r
}

/// `s` without its trailing `/` characters.
pub open spec fn strip_slashes(s: Seq<char>) -> Seq<char>
    decreases s.len(),
{
    if s.len() > 0 && s.last() == '/' {
        strip_slashes(s.drop_last())
    } else {
        s
    }
}

/// The parent directory of a path: `None` for the empty path and the
/// root, `""` for a single relative component, `/` for a top-level entry,
/// and otherwise everything before the last component.
pub open spec fn path_parent(p: Seq<char>) -> Option<Seq<char>> {
    let q = strip_slashes(p);
    if q.len() == 0 {
        None
    } else {
        match last_pos(q, '/') {
            None => Some(Seq::empty()),
            Some(k) => {
                let r = strip_slashes(q.subrange(0, k));
                if r.len() == 0 { Some(seq!['/']) } else { Some(r) }
            },
        }
    }
}

/// Position of the last `c` in `s`.
pub open spec fn last_pos(s: Seq<char>, c: char) -> Option<int> {
    if exists|i: int| 0 <= i < s.len() && s[i] == c {
        Some(choose|i: int| 0 <= i < s.len() && s[i] == c && forall|j: int| i < j < s.len() ==> s[j] != c)
    } else {
        None
    }
}

pub(crate) fn strip_slashes_len(v: &Vec<char>, to: usize) -> (n: usize)
    requires
        to <= v@.len(),
    ensures
        n <= to,
        v@.subrange(0, n as int) == strip_slashes(v@.subrange(0, to as int)),
{
    let mut n = to;
    while n > 0 && v[n - 1] == '/'
        invariant
            n <= to <= v@.len(),
            strip_slashes(v@.subrange(0, n as int)) == strip_slashes(v@.subrange(0, to as int)),
        decreases n,
    {
        assert(v@.subrange(0, n as int).drop_last() =~= v@.subrange(0, n - 1));
        n -= 1;
    }
    n
}

/// Parent directory of `p` (see `path_parent`).
#[verifier::spinoff_prover]
#[verifier::rlimit(30)]
pub fn parent_path(p: &str) -> (r: Option<String>)
    ensures
        match r {
            Some(s) => path_parent(p@) == Some(s@),
            None => path_parent(p@).is_none(),
        },
{
    let v = chars_of(p);
    let len = v.len();
    assert(v@.subrange(0, len as int) =~= v@);
    let n = strip_slashes_len(&v, len);
    let ghost q = v@.subrange(0, n as int);
    if n == 0 {
        return None;
    }
    let mut k = n;
    while k > 0 && v[k - 1] != '/'
        invariant
            k <= n <= v@.len(),
            forall|j: int| k <= j < n ==> v@[j] != '/',
        decreases k,
    {
        k -= 1;
    }
    if k == 0 {
        assert forall|i: int| 0 <= i < q.len() implies q[i] != '/' by {}
        return Some(String::new());
    }
    let slash = k - 1;
    proof {
        assert(q[slash as int] == '/');
        let c = choose|i: int| 0 <= i < q.len() && q[i] == '/' && forall|j: int| i < j < q.len() ==> q[j] != '/';
        assert(c == slash);
        assert(q.subrange(0, slash as int) =~= v@.subrange(0, slash as int));
    }
    let m = strip_slashes_len(&v, slash);
    if m == 0 {
        let mut r = String::new();
        push_char(&mut r, '/');
        assert(r@ =~= seq!['/']);
        Some(r)
    } else {
        Some(string_from_chars(&v, 0, m))
    }
}

/// `s` with every `/` replaced by `-`.
pub open spec fn sanitise(s: Seq<char>) -> Seq<char> {
    s.map_values(|c: char| if c == '/' { '-' } else { c })
}

fn sanitise_branch(b: &str) -> (r: String)
    ensures
        r@ == sanitise(b@),
{
    let v = chars_of(b);
    let mut r = String::new();
    let mut i: usize = 0;
    while i < v.len()
        invariant
            i <= v@.len(),
            r@ == sanitise(v@.subrange(0, i as int)),
        decreases v@.len() - i,
    {
        let c = if v[i] == '/' { '-' } else { v[i] };
        push_char(&mut r, c);
        assert(sanitise(v@.subrange(0, i + 1)) =~= sanitise(v@.subrange(0, i as int)).push(c));
        i += 1;
    }
    assert(v@.subrange(0, v@.len() as int) =~= v@);
    r
}

/// Directory and file-name stem of a new worktree: under
/// `<worktree_root>/<repo_name>` named after the branch, or, without a
/// worktree root, next to the repository (in its parent, `.` when it has
/// none) named `<repo_name>-<branch>`.  `/` in the branch becomes `-`.
pub open spec fn worktree_base(repo_root: Seq<char>, repo_name: Seq<char>, branch: Seq<char>, root: Option<Seq<char>>) -> (Seq<char>, Seq<char>) {
    match root {
        Some(r) => (path_join(r, repo_name), sanitise(branch)),
        None => (
            match path_parent(repo_root) {
                Some(p) => p,
                None => seq!['.'],
            },
            repo_name.push('-') + sanitise(branch),
        ),
    }
}

/// The `k`-th candidate path: the stem itself for `k < 2`, else the stem
/// with `-k` appended.
pub open spec fn numbered_path(base: Seq<char>, stem: Seq<char>, k: nat) -> Seq<char> {
    if k < 2 {
        path_join(base, stem)
    } else {
        path_join(base, stem.push('-') + crate::text::decimal(k))
    }
}

pub open spec fn opt_str_view(o: Option<&str>) -> Option<Seq<char>> {
    match o {
        Some(x) => Some(x@),
        None => None,
    }
}

/// The `k`-th candidate path for a new worktree of `branch`.
pub open spec fn worktree_candidate(repo_root: Seq<char>, repo_name: Seq<char>, branch: Seq<char>, root: Option<Seq<char>>, k: nat) -> Seq<char> {
    let b = worktree_base(repo_root, repo_name, branch, root);
    numbered_path(b.0, b.1, k)
}

/// Does something exist at this path (`Path::exists`)?
#[verifier::external_body]
pub(crate) fn path_exists(p: &str) -> bool {
    std::path::Path::new(p).exists()
}

/// The number of the `j`-th path tried: the bare stem first, then `-2`,
/// `-3`, and so on.
pub open spec fn probe_number(j: nat) -> nat {
    if j == 0 {
        0
    } else {
        j + 1
    }
}

/// Index of the first `false` in `taken`, or its length when there is none.
pub open spec fn first_false(taken: Seq<bool>, from: nat) -> nat
    decreases taken.len() - from,
{
    if from >= taken.len() {
        taken.len()
    } else if !taken[from as int] {
        from
    } else {
        first_false(taken, from + 1)
    }
}

/// The first candidate path not known to be taken, where `taken[j]` says
/// whether the `j`-th path tried exists.
pub open spec fn spec_first_free(repo_root: Seq<char>, repo_name: Seq<char>, branch: Seq<char>, root: Option<Seq<char>>, taken: Seq<bool>) -> Seq<char> {
    worktree_candidate(repo_root, repo_name, branch, root, probe_number(first_false(taken, 0)))
}

/// Directory and stem of the candidate paths, as `worktree_base` says.
fn worktree_base_exec(repo_root: &str, repo_name: &str, branch: &str, worktree_root: Option<&str>) -> (r: (String, String))
    ensures
        (r.0@, r.1@) == worktree_base(repo_root@, repo_name@, branch@, opt_str_view(worktree_root)),
{
    let sanitised = sanitise_branch(branch);
    match worktree_root {
        Some(root) => (join_path(root, repo_name), sanitised),
        None => {
            let parent = match parent_path(repo_root) {
                Some(p) => p,
                None => {
                    let mut d = String::new();
                    push_char(&mut d, '.');
                    assert(d@ =~= seq!['.']);
                    d
                },
            };
            let mut stem = string_of(repo_name);
            push_char(&mut stem, '-');
            stem.append(sanitised.as_str());
            (parent, stem)
        },
    }
}

/// The candidate path numbered `k` under `base` with `stem`.
fn numbered_path_exec(base: &str, stem: &str, k: usize) -> (r: String)
    ensures
        r@ == numbered_path(base@, stem@, k as nat),
{
    if k < 2 {
        join_path(base, stem)
    } else {
        let mut name = string_of(stem);
        push_char(&mut name, '-');
        crate::text::push_decimal(&mut name, k);
        join_path(base, name.as_str())
    }
}

/// The first candidate path for a new worktree of `branch` not known to
/// exist: `taken[j]` is whether the `j`-th path tried (`<stem>`,
/// `<stem>-2`, `<stem>-3`, …) exists, and the result is the first one
/// whose answer is `false`, or the next one after all of them.
pub fn first_free_candidate(repo_root: &str, repo_name: &str, branch: &str, worktree_root: Option<&str>, taken: &Vec<bool>) -> (r: String)
    requires
        taken@.len() + 1 < usize::MAX,
    ensures
        r@ == spec_first_free(repo_root@, repo_name@, branch@, opt_str_view(worktree_root), taken@),
{
    let (base, stem) = worktree_base_exec(repo_root, repo_name, branch, worktree_root);
    let mut k: usize = 0;
    while k < taken.len() && taken[k]
        invariant
            k <= taken@.len(),
            first_false(taken@, 0) == first_false(taken@, k as nat),
        decreases taken@.len() - k,
    {
        k += 1;
    }
    assert(first_false(taken@, k as nat) == k);
    let number = if k == 0 {
        0
    } else {
        k + 1
    };
    numbered_path_exec(base.as_str(), stem.as_str(), number)
}

/// Path for a new worktree of `branch`: the first numbered candidate
/// (`<stem>`, `<stem>-2`, `<stem>-3`, …) under the worktree base at which
/// nothing exists, asking the disk about each in turn.
pub fn derive_worktree_path(repo_root: &str, repo_name: &str, branch: &str, worktree_root: Option<&str>) -> (r: String)
    ensures
        exists|taken: Seq<bool>| r@ == #[trigger] spec_first_free(repo_root@, repo_name@, branch@, opt_str_view(worktree_root), taken),
{
    let mut taken: Vec<bool> = Vec::new();
    let mut candidate = first_free_candidate(repo_root, repo_name, branch, worktree_root, &taken);
    while taken.len() + 2 < usize::MAX && path_exists(candidate.as_str())
        invariant
            taken@.len() + 1 < usize::MAX,
            candidate@ == spec_first_free(repo_root@, repo_name@, branch@, opt_str_view(worktree_root), taken@),
        decreases usize::MAX - taken@.len(),
    {
        taken.push(true);
        candidate = first_free_candidate(repo_root, repo_name, branch, worktree_root, &taken);
    }
    candidate
}

/// The branch name a symbolic reference such as
/// `refs/remotes/origin/main` points at: its last `/`-separated segment.
pub open spec fn last_segment(s: Seq<char>) -> Seq<char> {
    match last_pos(s, '/') {
        Some(k) => s.subrange(k + 1, s.len() as int),
        None => s,
    }
}

pub fn default_branch_of_target(target: &str) -> (r: String)
    ensures
        r@ == last_segment(target@),
{
    let v = chars_of(target);
    let len = v.len();
    match rfind_char(&v, '/') {
        Some(k) => {
            proof {
                let c = choose|i: int| 0 <= i < v@.len() && v@[i] == '/' && forall|j: int| i < j < v@.len() ==> v@[j] != '/';
                assert(c == k);
            }
            string_from_chars(&v, k + 1, len)
        },
        None => {
            assert(v@.subrange(0, len as int) =~= v@);
            string_from_chars(&v, 0, len)
        },
    }
}

pub open spec fn skipped_dir_names() -> Seq<Seq<char>> {
    seq![
        seq!['n', 'o', 'd', 'e', '_', 'm', 'o', 'd', 'u', 'l', 'e', 's'],
        seq!['t', 'a', 'r', 'g', 'e', 't'],
        seq!['.', 'v', 'e', 'n', 'v'],
        seq!['v', 'e', 'n', 'v'],
        seq!['_', '_', 'p', 'y', 'c', 'a', 'c', 'h', 'e', '_', '_'],
        seq!['d', 'i', 's', 't'],
        seq!['b', 'u', 'i', 'l', 'd'],
    ]
}

/// A repository scan descends into a directory of this name: not hidden
/// (except `.git`), and not a build or dependency cache directory.
pub open spec fn spec_should_descend(name: Seq<char>) -> bool {
    &&& !(name.len() > 0 && name[0] == '.' && name != seq!['.', 'g', 'i', 't'])
    &&& !skipped_dir_names().contains(name)
}

pub fn should_descend(name: &str) -> (b: bool)
    ensures
        b == spec_should_descend(name@),
{
    proof {
        reveal_strlit(".git");
        reveal_strlit("node_modules");
        reveal_strlit("target");
        reveal_strlit(".venv");
        reveal_strlit("venv");
        reveal_strlit("__pycache__");
        reveal_strlit("dist");
        reveal_strlit("build");
        assert(".git"@ =~= seq!['.', 'g', 'i', 't']);
        let names = skipped_dir_names();
        assert(names[0] =~= "node_modules"@);
        assert(names[1] =~= "target"@);
        assert(names[2] =~= ".venv"@);
        assert(names[3] =~= "venv"@);
        assert(names[4] =~= "__pycache__"@);
        assert(names[5] =~= "dist"@);
        assert(names[6] =~= "build"@);
    }
    let hidden = name.unicode_len() > 0 && name.get_char(0) == '.' && !str_eq(name, ".git");
    if hidden {
        return false;
    }
    let skip = str_eq(name, "node_modules") || str_eq(name, "target") || str_eq(name, ".venv")
        || str_eq(name, "venv") || str_eq(name, "__pycache__") || str_eq(name, "dist") || str_eq(name, "build");
    proof {
        let names = skipped_dir_names();
        if names.contains(name@) {
            let i = choose|i: int| 0 <= i < names.len() && names[i] == name@;
            assert(skip);
        }
        if skip {
            if name@ == "node_modules"@ { assert(names[0] == name@); }
            if name@ == "target"@ { assert(names[1] == name@); }
            if name@ == ".venv"@ { assert(names[2] == name@); }
            if name@ == "venv"@ { assert(names[3] == name@); }
            if name@ == "__pycache__"@ { assert(names[4] == name@); }
            if name@ == "dist"@ { assert(names[5] == name@); }
            if name@ == "build"@ { assert(names[6] == name@); }
        }
    }
    !skip
}

/// The labels of worktrees, in order.
pub open spec fn worktree_labels(s: Seq<Worktree>) -> Seq<Seq<char>> {
    s.map_values(|w: Worktree| w.head.spec_label())
}

/// `idx` shows that `out` is `orig` reordered stably: position `k` of
/// `out` holds entry `idx[k]` of `orig`, no entry twice, and worktrees with
/// the same label keep their relative order.
pub open spec fn stable_witness(orig: Seq<Worktree>, out: Seq<Worktree>, idx: Seq<int>) -> bool {
    &&& out.len() == orig.len()
    &&& idx.len() == out.len()
    &&& forall|k: int| 0 <= k < out.len() ==> 0 <= #[trigger] idx[k] < orig.len() && out[k] == orig[idx[k]]
    &&& forall|a: int, b: int| 0 <= a < b < out.len() ==> #[trigger] idx[a] != #[trigger] idx[b]
    &&& forall|a: int, b: int|
        0 <= a < b < out.len() && (#[trigger] out[a]).head.spec_label() == (#[trigger] out[b]).head.spec_label()
            ==> idx[a] < idx[b]
}

/// `out` is a stable reordering of `orig`.
pub open spec fn stable_reorder(orig: Seq<Worktree>, out: Seq<Worktree>) -> bool {
    exists|idx: Seq<int>| #[trigger] stable_witness(orig, out, idx)
}

proof fn lemma_lex_lt_irrefl(a: Seq<char>)
    ensures
        !lex_lt(a, a),
    decreases a.len(),
{
    if a.len() > 0 {
        lemma_lex_lt_irrefl(a.drop_first());
    }
}

/// In a sorted list, nothing from the first entry greater than `x` on
/// equals `x`.
proof fn lemma_greater_tail_differs(ls: Seq<Seq<char>>, p: int, x: Seq<char>)
    requires
        lex_sorted(ls),
        0 <= p < ls.len(),
        lex_lt(x, ls[p]),
    ensures
        forall|b: int| p <= b < ls.len() ==> #[trigger] ls[b] != x,
{
    assert forall|b: int| p <= b < ls.len() implies #[trigger] ls[b] != x by {
        lemma_lex_lt_irrefl(x);
        if ls[b] == x && b > p {
            assert(lex_le(ls[p], ls[b]));
            if ls[p] != x {
                lemma_lex_trans(x, ls[p], x);
            }
        }
    }
}

/// The order the sidebar lists a repository's worktrees in: the first
/// one listed (the primary checkout) stays first, the others follow by
/// label (a stable sort, as the listing order of linked worktrees is not).
pub fn order_worktrees(list: Vec<Worktree>) -> (r: Vec<Worktree>)
    ensures
        r@.len() == list@.len(),
        list@.len() > 0 ==> r@[0] == list@[0],
        list@.len() > 0 ==> r@.skip(1).to_multiset() == list@.skip(1).to_multiset(),
        list@.len() > 0 ==> lex_sorted(worktree_labels(r@.skip(1))),
        list@.len() > 0 ==> stable_reorder(list@.skip(1), r@.skip(1)),
{
    let mut rest = list;
    if rest.len() == 0 {
        return rest;
    }
    let first = rest.remove(0);
    let ghost tail = rest@;
    assert(tail =~= list@.skip(1));
    let mut sorted: Vec<Worktree> = Vec::new();
    let mut labels: Vec<Vec<char>> = Vec::new();
    let mut i: usize = 0;
    let ghost mut idx: Seq<int> = Seq::empty();
    assert(tail.take(0) =~= Seq::<Worktree>::empty());
    assert(worktree_labels(sorted@) =~= Seq::<Seq<char>>::empty());
    while i < rest.len()
        invariant
            i <= rest@.len(),
            tail == rest@,
            idx.len() == i,
            forall|k: int| 0 <= k < i ==> 0 <= #[trigger] idx[k] < i && sorted@[k] == tail[idx[k]],
            forall|a: int, b: int| 0 <= a < b < i ==> #[trigger] idx[a] != #[trigger] idx[b],
            forall|a: int, b: int|
                0 <= a < b < i && (#[trigger] sorted@[a]).head.spec_label() == (#[trigger] sorted@[b]).head.spec_label()
                    ==> idx[a] < idx[b],
            sorted@.len() == i,
            labels@.len() == i,
            crate::keys::views(labels@) == worktree_labels(sorted@),
            lex_sorted(worktree_labels(sorted@)),
            sorted@.to_multiset() == tail.take(i as int).to_multiset(),
        decreases rest@.len() - i,
    {
        let w = rest[i].clone();
        let lab = chars_of(w.head.label().as_str());
        let ghost ls = worktree_labels(sorted@);
        let mut p: usize = 0;
        while p < sorted.len() && !lex_less(&lab, &labels[p])
            invariant
                p <= sorted@.len(),
                sorted@.len() == labels@.len(),
                ls == worktree_labels(sorted@),
                crate::keys::views(labels@) == ls,
                forall|j: int| 0 <= j < p ==> lex_le(#[trigger] ls[j], lab@),
            decreases sorted@.len() - p,
        {
            proof {
                assert(labels@[p as int]@ == ls[p as int]);
                lemma_lex_total(lab@, ls[p as int]);
            }
            p += 1;
        }
        proof {
            if p < sorted@.len() {
                assert(labels@[p as int]@ == ls[p as int]);
            }
            lemma_insert_keeps_sorted(ls, p as int, lab@);
            broadcast use vstd::seq_lib::group_to_multiset_ensures;
            assert(tail.take(i + 1) =~= tail.take(i as int).push(tail[i as int]));
        }
        let ghost pre = sorted@;
        let ghost pre_labels = labels@;
        let ghost pre_idx = idx;
        proof {
            if p < sorted@.len() {
                lemma_greater_tail_differs(ls, p as int, lab@);
            }
        }
        sorted.insert(p, w);
        labels.insert(p, lab);
        proof {
            idx = pre_idx.insert(p as int, i as int);
            let n = pre.len() as int;
            let q = p as int;
            assert(w == tail[i as int]);
            assert(lab@ == w.head.spec_label());
            assert forall|k: int| 0 <= k < i + 1 implies 0 <= #[trigger] idx[k] < i + 1 && sorted@[k] == tail[idx[k]] by {
                if k < q {
                    assert(idx[k] == pre_idx[k] && sorted@[k] == pre[k]);
                } else if k > q {
                    assert(idx[k] == pre_idx[k - 1] && sorted@[k] == pre[k - 1]);
                }
            }
            assert forall|a: int, b: int| 0 <= a < b < i + 1 implies #[trigger] idx[a] != #[trigger] idx[b] by {
                if a != q && b != q {
                    let a0 = if a < q { a } else { a - 1 };
                    let b0 = if b < q { b } else { b - 1 };
                    assert(idx[a] == pre_idx[a0] && idx[b] == pre_idx[b0]);
                    assert(pre_idx[a0] != pre_idx[b0]);
                } else if a == q {
                    assert(idx[b] == pre_idx[b - 1]);
                    assert(0 <= pre_idx[b - 1] < i);
                } else {
                    let a0 = if a < q { a } else { a - 1 };
                    assert(idx[a] == pre_idx[a0]);
                    assert(0 <= pre_idx[a0] < i);
                }
            }
            assert forall|a: int, b: int|
                0 <= a < b < i + 1 && (#[trigger] sorted@[a]).head.spec_label() == (#[trigger] sorted@[b]).head.spec_label()
                    implies idx[a] < idx[b] by {
                if a != q && b != q {
                    let a0 = if a < q { a } else { a - 1 };
                    let b0 = if b < q { b } else { b - 1 };
                    assert(idx[a] == pre_idx[a0] && idx[b] == pre_idx[b0]);
                    assert(sorted@[a] == pre[a0] && sorted@[b] == pre[b0]);
                    assert(pre[a0].head.spec_label() == ls[a0] && pre[b0].head.spec_label() == ls[b0]);
                } else if a == q {
                    assert(sorted@[b] == pre[b - 1]);
                    assert(pre[b - 1].head.spec_label() == ls[b - 1]);
                    assert(ls[b - 1] != lab@);
                } else {
                    let a0 = if a < q { a } else { a - 1 };
                    assert(idx[a] == pre_idx[a0]);
                    assert(0 <= pre_idx[a0] < i);
                }
            }
        }
        assert(worktree_labels(sorted@) =~= ls.insert(p as int, lab@));
        assert(crate::keys::views(labels@) =~= crate::keys::views(pre_labels).insert(p as int, lab@));
        i += 1;
    }
    assert(tail.take(tail.len() as int) =~= tail);
    let mut r: Vec<Worktree> = Vec::new();
    r.push(first);
    let ghost sv = sorted@;
    r.append(&mut sorted);
    assert(r@.skip(1) =~= sv);
    assert(stable_witness(tail, sv, idx));
    r
}


/// What git reports of a worktree's HEAD: the branch it is on, the commit
/// id (in hex) of a detached HEAD, or nothing readable.
pub enum HeadInfo {
    Branch(String),
    Detached(String),
    Unreadable,
}

/// The first seven characters of a commit id (all of it when shorter).
pub open spec fn abbreviated(oid: Seq<char>) -> Seq<char> {
    if oid.len() <= 7 {
        oid
    } else {
        oid.subrange(0, 7)
    }
}

/// How the sidebar lists a worktree whose HEAD git reports as `head`: a
/// worktree on a branch is listed on it, one on a detached HEAD (primary
/// or linked) by its abbreviated commit id, so that the user can still
/// reach it; a worktree whose HEAD cannot be read is left out.
pub fn listed_worktree(path: String, head: HeadInfo, is_primary: bool) -> (r: Option<Worktree>)
    ensures
        match head {
            HeadInfo::Branch(b) => r matches Some(w) && (w.head matches HeadRef::Branch(x) && x@ == b@),
            HeadInfo::Detached(oid) => r matches Some(w) && (w.head matches HeadRef::Detached(x) && x@ == abbreviated(oid@)),
            HeadInfo::Unreadable => r is None,
        },
        r matches Some(w) ==> w.path@ == path@ && w.is_primary == is_primary && w.status.is_none() && w.pr.is_none(),
{
    let h = match head {
        HeadInfo::Branch(b) => HeadRef::Branch(b),
        HeadInfo::Detached(oid) => {
            let v = chars_of(oid.as_str());
            let n = if v.len() <= 7 {
                v.len()
            } else {
                7
            };
            let a = string_from_chars(&v, 0, n);
            assert(v@.subrange(0, v@.len() as int) =~= v@);
            HeadRef::Detached(a)
        },
        HeadInfo::Unreadable => {
            return None;
        },
    };
    Some(Worktree { head: h, path, is_primary, status: None, pr: None })
}

/// The two bases a branch may be merged into, in the order they are
/// tried: the remote's `origin/<base>` and the local `<base>`.
pub fn merge_bases(base: &str) -> (r: (String, String))
    ensures
        r.0@ == seq!['o', 'r', 'i', 'g', 'i', 'n', '/'] + base@,
        r.1@ == base@,
{
    let mut remote = string_of("origin/");
    proof {
        reveal_strlit("origin/");
        assert("origin/"@ =~= seq!['o', 'r', 'i', 'g', 'i', 'n', '/']);
    }
    remote.append(base);
    (remote, string_of(base))
}

/// Whether a branch counts as merged, given for each base of
/// `merge_bases` whether that base exists and, if so, whether the
/// branch's tip is that base's tip or one of its ancestors.  The remote
/// base is preferred because a local base that is never checked out lags
/// behind; a branch cut from a local base ahead of the remote one is at
/// that base's tip, so either base showing the branch merged is enough.
pub fn merged_verdict(remote: Option<bool>, local: Option<bool>) -> (b: bool)
    ensures
        b == (remote == Some(true) || local == Some(true)),
{
    match (remote, local) {
        (Some(true), _) => true,
        (_, Some(true)) => true,
        _ => false,
    }
}


/// What a repository scan does with a directory it reaches.
#[derive(Debug, Clone, Copy, PartialEq, Eq, Structural)]
pub enum ScanStep {
    /// The directory is a repository: it is found, and not entered.
    Found,
    /// The scan is as deep as it may go: the directory is left.
    Stop,
    /// The directory is entered; its children are at this level.
    Descend(u8),
}

/// The step for a directory at `level` (the root is at 0) of a scan that
/// goes at most `depth` levels down: a repository is found and not
/// entered; otherwise the scan enters the directory while `level < depth`.
pub fn scan_step(is_repo: bool, level: u8, depth: u8) -> (s: ScanStep)
    ensures
        s == if is_repo {
            ScanStep::Found
        } else if level >= depth {
            ScanStep::Stop
        } else {
            ScanStep::Descend((level + 1) as u8)
        },
{
    if is_repo {
        ScanStep::Found
    } else if level >= depth {
        ScanStep::Stop
    } else {
        ScanStep::Descend(level + 1)
    }
}

} // verus!
