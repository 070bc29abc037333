//! What grove makes of GitHub: the `owner/repo` of an `origin` URL, the
//! state of a pull request, and the roll-up of its CI check runs.

use vstd::prelude::*;

use crate::model::{ChecksRollup, PrState, PrStatus};
use crate::text::{spec_trim, string_from_chars};

verus! {

#[derive(Debug, PartialEq, Eq)]
pub struct OwnerRepo {
    pub owner: String,
    pub repo: String,
}

pub open spec fn p_ssh() -> Seq<char> {
    seq!['g', 'i', 't', '@', 'g', 'i', 't', 'h', 'u', 'b', '.', 'c', 'o', 'm', ':']
}

pub open spec fn p_https() -> Seq<char> {
    seq!['h', 't', 't', 'p', 's', ':', '/', '/', 'g', 'i', 't', 'h', 'u', 'b', '.', 'c', 'o', 'm', '/']
}

pub open spec fn p_ssh_scheme() -> Seq<char> {
    seq!['s', 's', 'h', ':', '/', '/', 'g', 'i', 't', '@', 'g', 'i', 't', 'h', 'u', 'b', '.', 'c', 'o', 'm', '/']
}

pub open spec fn git_suffix() -> Seq<char> {
    seq!['.', 'g', 'i', 't']
}

/// `s` without the first of the accepted GitHub prefixes it starts
/// with (`git@github.com:`, `https://github.com/`,
/// `ssh://git@github.com/`), or `None` when it starts with none.
#[verifier::opaque]
pub open spec fn strip_github_prefix(s: Seq<char>) -> Option<Seq<char>> {
    if s.len() >= p_ssh().len() && s.subrange(0, p_ssh().len() as int) == p_ssh() {
        Some(s.subrange(p_ssh().len() as int, s.len() as int))
    } else if s.len() >= p_https().len() && s.subrange(0, p_https().len() as int) == p_https() {
        Some(s.subrange(p_https().len() as int, s.len() as int))
    } else if s.len() >= p_ssh_scheme().len() && s.subrange(0, p_ssh_scheme().len() as int) == p_ssh_scheme() {
        Some(s.subrange(p_ssh_scheme().len() as int, s.len() as int))
    } else {
        None
    }
}

/// `s` without a trailing `.git`.
pub open spec fn strip_git_suffix(s: Seq<char>) -> Seq<char> {
    if s.len() >= 4 && s.subrange(s.len() - 4, s.len() as int) == git_suffix() {
        s.subrange(0, s.len() - 4)
    } else {
        s
    }
}

/// `(owner, repo)` of a GitHub remote URL: the URL trimmed, a GitHub
/// prefix removed, trailing slashes and then a `.git` suffix dropped,
/// split at the first `/`; both parts non-empty.
pub open spec fn spec_parse_owner_repo(url: Seq<char>) -> Option<(Seq<char>, Seq<char>)> {
    match strip_github_prefix(spec_trim(url)) {
        None => None,
        Some(rest) => split_owner_repo(strip_git_suffix(crate::git::strip_slashes(rest))),
    }
}

/// `path` split at its first `/` into two non-empty parts.
pub open spec fn split_owner_repo(path: Seq<char>) -> Option<(Seq<char>, Seq<char>)> {
    match crate::git::first_pos(path, '/') {
        None => None,
        Some(k) => {
            let owner = path.subrange(0, k);
            let repo = path.subrange(k + 1, path.len() as int);
            if owner.len() == 0 || repo.len() == 0 {
                None
            } else {
                Some((owner, repo))
            }
        },
    }
}

/// Does `v` start with `p` (from index `at`)?
fn has_at(v: &Vec<char>, at: usize, p: &str) -> (b: bool)
    requires
        at <= v@.len(),
    ensures
        b == (v@.len() - at >= p@.len() && v@.subrange(at as int, at + p@.len()) == p@),
{
    let pv = crate::text::chars_of(p);
    let m = pv.len();
    let n = v.len();
    if n - at < m {
        return false;
    }
    let mut i: usize = 0;
    while i < m
        invariant
            i <= m,
            m == p@.len(),
            pv@ == p@,
            n == v@.len(),
            at + m <= n,
            forall|j: int| 0 <= j < i ==> v@[at + j] == p@[j],
        decreases m - i,
    {
        if v[at + i] != pv[i] {
            assert(v@.subrange(at as int, at + m)[i as int] != p@[i as int]);
            return false;
        }
        i += 1;
    }
    assert(v@.subrange(at as int, at + m) =~= p@);
    true
}

/// Length of the GitHub prefix `v` starts with.
fn prefix_len(v: &Vec<char>) -> (r: Option<usize>)
    ensures
        match r {
            Some(n) => n <= v@.len() && strip_github_prefix(v@) == Some(v@.subrange(n as int, v@.len() as int)),
            None => strip_github_prefix(v@).is_none(),
        },
{
    proof {
        reveal(strip_github_prefix);
        reveal_strlit("git@github.com:");
        reveal_strlit("https://github.com/");
        reveal_strlit("ssh://git@github.com/");
        assert("git@github.com:"@ =~= p_ssh());
        assert("https://github.com/"@ =~= p_https());
        assert("ssh://git@github.com/"@ =~= p_ssh_scheme());
    }
    if has_at(v, 0, "git@github.com:") {
        Some(15)
    } else if has_at(v, 0, "https://github.com/") {
        Some(19)
    } else if has_at(v, 0, "ssh://git@github.com/") {
        Some(21)
    } else {
        None
    }
}

/// End of `v[start..]` once trailing slashes and then a `.git` suffix
/// are dropped.
fn path_end(v: &Vec<char>, start: usize) -> (end: usize)
    requires
        start <= v@.len(),
    ensures
        start <= end <= v@.len(),
        v@.subrange(start as int, end as int) == strip_git_suffix(
            crate::git::strip_slashes(v@.subrange(start as int, v@.len() as int)),
        ),
{
    let ghost rest = v@.subrange(start as int, v@.len() as int);
    let mut end: usize = v.len();
    while end > start && v[end - 1] == '/'
        invariant
            start <= end <= v@.len(),
            rest == v@.subrange(start as int, v@.len() as int),
            crate::git::strip_slashes(v@.subrange(start as int, end as int)) == crate::git::strip_slashes(rest),
        decreases end,
    {
        assert(v@.subrange(start as int, end as int).drop_last() =~= v@.subrange(start as int, end - 1));
        end -= 1;
    }
    let ghost stripped = v@.subrange(start as int, end as int);
    assert(crate::git::strip_slashes(rest) == stripped);
    proof {
        reveal_strlit(".git");
        assert(".git"@ =~= git_suffix());
    }
    if end - start >= 4 && has_at(v, end - 4, ".git") {
        assert(stripped.subrange(stripped.len() - 4, stripped.len() as int) =~= v@.subrange(end - 4, end as int));
        assert(strip_git_suffix(stripped) =~= v@.subrange(start as int, end - 4));
        end - 4
    } else {
        proof {
            if stripped.len() >= 4 {
                assert(stripped.subrange(stripped.len() - 4, stripped.len() as int) =~= v@.subrange(end - 4, end as int));
            }
        }
        end
    }
}

/// Position of the first `/` in `v[start..end]`.
fn first_slash(v: &Vec<char>, start: usize, end: usize) -> (r: Option<usize>)
    requires
        start <= end <= v@.len(),
    ensures
        match r {
            Some(k) => start <= k < end && crate::git::first_pos(v@.subrange(start as int, end as int), '/') == Some(k - start),
            None => crate::git::first_pos(v@.subrange(start as int, end as int), '/').is_none(),
        },
{
    let ghost path = v@.subrange(start as int, end as int);
    let mut k: usize = start;
    while k < end && v[k] != '/'
        invariant
            start <= k <= end <= v@.len(),
            forall|j: int| start <= j < k ==> v@[j] != '/',
        decreases end - k,
    {
        k += 1;
    }
    if k == end {
        assert forall|i: int| 0 <= i < path.len() implies path[i] != '/' by {
            assert(path[i] == v@[start + i]);
        }
        return None;
    }
    proof {
        let rel = (k - start) as int;
        assert(path[rel] == '/');
        assert forall|i: int| 0 <= i < rel implies path[i] != '/' by {
            assert(path[i] == v@[start + i]);
        }
        let c = choose|i: int| 0 <= i < path.len() && path[i] == '/' && forall|j: int| 0 <= j < i ==> path[j] != '/';
        assert(c == rel);
    }
    Some(k)
}

/// `v[start..end]` split at its first `/`.
fn split_at_slash(v: &Vec<char>, start: usize, end: usize) -> (r: Option<OwnerRepo>)
    requires
        start <= end <= v@.len(),
    ensures
        match split_owner_repo(v@.subrange(start as int, end as int)) {
            Some((o, p)) => r matches Some(x) && x.owner@ == o && x.repo@ == p,
            None => r.is_none(),
        },
{
    let ghost path = v@.subrange(start as int, end as int);
    let k = match first_slash(v, start, end) {
        Some(k) => k,
        None => return None,
    };
    proof {
        let rel = (k - start) as int;
        assert(path.subrange(0, rel) =~= v@.subrange(start as int, k as int));
        assert(path.subrange(rel + 1, path.len() as int) =~= v@.subrange(k + 1, end as int));
    }
    if k == start || k + 1 == end {
        return None;
    }
    let owner = string_from_chars(v, start, k);
    let repo = string_from_chars(v, k + 1, end);
    Some(OwnerRepo { owner, repo })
}

/// The `owner/repo` of a GitHub remote URL, or `None` for other remotes
/// and malformed URLs.
pub fn parse_owner_repo(url: &str) -> (r: Option<OwnerRepo>)
    ensures
        match spec_parse_owner_repo(url@) {
            Some((o, p)) => r matches Some(x) && x.owner@ == o && x.repo@ == p,
            None => r.is_none(),
        },
{
    let t = crate::text::trim(url);
    let v = crate::text::chars_of(t.as_str());
    let start = match prefix_len(&v) {
        Some(n) => n,
        None => return None,
    };
    let end = path_end(&v, start);
    split_at_slash(&v, start, end)
}

pub open spec fn is_github_url(u: Option<String>) -> bool {
    match u {
        Some(s) => spec_parse_owner_repo(s@).is_some(),
        None => false,
    }
}

/// Whether some repository's `origin` URL (as listed; `None` when it has
/// no readable `origin`) is a GitHub remote.
pub fn any_github_remote(origin_urls: &Vec<Option<String>>) -> (b: bool)
    ensures
        b == exists|i: int| 0 <= i < origin_urls@.len() && is_github_url(#[trigger] origin_urls@[i]),
{
    let mut i: usize = 0;
    while i < origin_urls.len()
        invariant
            i <= origin_urls@.len(),
            forall|j: int| 0 <= j < i ==> !is_github_url(#[trigger] origin_urls@[j]),
        decreases origin_urls@.len() - i,
    {
        if let Some(u) = &origin_urls[i] {
            if parse_owner_repo(u.as_str()).is_some() {
                return true;
            }
        }
        i += 1;
    }
    false
}

/// The state of a pull request from its fields: merged wins, then
/// closed, then draft, else open.
pub fn pr_state_of(merged: bool, closed: bool, draft: Option<bool>) -> (s: PrState)
    ensures
        s == if merged {
            PrState::Merged
        } else if closed {
            PrState::Closed
        } else if draft == Some(true) {
            PrState::Draft
        } else {
            PrState::Open
        },
{
    if merged {
        PrState::Merged
    } else if closed {
        PrState::Closed
    } else if match draft {
        Some(d) => d,
        None => false,
    } {
        PrState::Draft
    } else {
        PrState::Open
    }
}

/// Check runs are looked up only for pull requests still open.
pub fn wants_checks(s: PrState) -> (b: bool)
    ensures
        b == (s == PrState::Open || s == PrState::Draft),
{
    s == PrState::Open || s == PrState::Draft
}

pub open spec fn s_completed() -> Seq<char> {
    seq!['c', 'o', 'm', 'p', 'l', 'e', 't', 'e', 'd']
}

/// A conclusion that counts as passing.
pub open spec fn ok_conclusion(c: Seq<char>) -> bool {
    c == seq!['s', 'u', 'c', 'c', 'e', 's', 's'] || c == seq!['n', 'e', 'u', 't', 'r', 'a', 'l'] || c == seq![
        's',
        'k',
        'i',
        'p',
        'p',
        'e',
        'd',
    ]
}

/// A run is still pending: not completed, or completed without a
/// conclusion.
pub open spec fn run_pending(status: Seq<char>, conclusion: Seq<char>) -> bool {
    status != s_completed() || conclusion.len() == 0
}

/// A run failed: completed with a conclusion other than success, neutral
/// or skipped.
pub open spec fn run_failing(status: Seq<char>, conclusion: Seq<char>) -> bool {
    status == s_completed() && conclusion.len() > 0 && !ok_conclusion(conclusion)
}

/// The roll-up of a commit's check runs, each `(status, conclusion)`
/// with `""` for a missing field; `None` when they could not be read.
/// Any failure fails it, else anything pending keeps it pending; no runs
/// is "no checks".
pub fn checks_rollup(runs: Option<&Vec<(String, String)>>) -> (c: ChecksRollup)
    ensures
        match runs {
            None => c == ChecksRollup::NoChecks,
            Some(rs) => c == if rs@.len() == 0 {
                ChecksRollup::NoChecks
            } else if exists|i: int| 0 <= i < rs@.len() && run_failing((#[trigger] rs@[i]).0@, rs@[i].1@) {
                ChecksRollup::Failing
            } else if exists|i: int| 0 <= i < rs@.len() && run_pending((#[trigger] rs@[i]).0@, rs@[i].1@) {
                ChecksRollup::Pending
            } else {
                ChecksRollup::Passing
            },
        },
{
    let rs = match runs {
        None => return ChecksRollup::NoChecks,
        Some(rs) => rs,
    };
    if rs.len() == 0 {
        return ChecksRollup::NoChecks;
    }
    let mut pending = false;
    let mut failing = false;
    let mut i: usize = 0;
    while i < rs.len()
        invariant
            i <= rs@.len(),
            failing <==> exists|j: int| 0 <= j < i && run_failing((#[trigger] rs@[j]).0@, rs@[j].1@),
            pending <==> exists|j: int| 0 <= j < i && run_pending((#[trigger] rs@[j]).0@, rs@[j].1@),
        decreases rs@.len() - i,
    {
        proof {
            reveal_strlit("completed");
            reveal_strlit("success");
            reveal_strlit("neutral");
            reveal_strlit("skipped");
            assert("completed"@ =~= s_completed());
            assert("success"@ =~= seq!['s', 'u', 'c', 'c', 'e', 's', 's']);
            assert("neutral"@ =~= seq!['n', 'e', 'u', 't', 'r', 'a', 'l']);
            assert("skipped"@ =~= seq!['s', 'k', 'i', 'p', 'p', 'e', 'd']);
        }
        let status = rs[i].0.as_str();
        let conclusion = rs[i].1.as_str();
        let completed = crate::text::str_eq(status, "completed");
        let empty = conclusion.is_empty();
        let ok = crate::text::str_eq(conclusion, "success") || crate::text::str_eq(conclusion, "neutral")
            || crate::text::str_eq(conclusion, "skipped");
        let p_i = !completed || empty;
        let f_i = completed && !empty && !ok;
        assert(p_i == run_pending(rs@[i as int].0@, rs@[i as int].1@));
        assert(f_i == run_failing(rs@[i as int].0@, rs@[i as int].1@));
        if p_i {
            pending = true;
        }
        if f_i {
            failing = true;
        }
        i += 1;
    }
    if failing {
        ChecksRollup::Failing
    } else if pending {
        ChecksRollup::Pending
    } else {
        ChecksRollup::Passing
    }
}

/// The pull request badge: number (cut to 32 bits), state and checks.
pub fn pr_status(number: u64, state: PrState, checks: ChecksRollup) -> (p: PrStatus)
    ensures
        p.number == number % 0x1_0000_0000,
        p.state == state,
        p.checks == checks,
{
    PrStatus { number: (number % 0x1_0000_0000) as u32, state, checks }
}

} // verus!
