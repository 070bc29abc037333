//! Background-activity tracking: every task that runs off the main loop
//! and can change what is shown registers here while it runs, so the
//! sidebar footer can say what is happening.

use vstd::prelude::*;

use crate::text::{decimal, push_decimal, string_of};

verus! {

#[derive(Debug, Clone, Copy, PartialEq, Eq, Structural)]
pub struct ActivityId(pub u64);

impl ActivityId {
    pub fn raw(self) -> (r: u64)
        ensures
            r == self.0,
    {
        self.0
    }
}

#[derive(Debug, Clone, Copy, PartialEq, Eq, Structural)]
pub enum ActivityKind {
    Fetch,
    StatusRefresh,
    DiffRefresh,
    PrPoll,
}

pub open spec fn spec_short(k: ActivityKind) -> Seq<char> {
    match k {
        ActivityKind::Fetch => seq!['f', 'e', 't', 'c', 'h', 'i', 'n', 'g'],
        ActivityKind::StatusRefresh => seq!['s', 't', 'a', 't', 'u', 's'],
        ActivityKind::DiffRefresh => seq!['d', 'i', 'f', 'f'],
        ActivityKind::PrPoll => seq!['P', 'R', ' ', 's', 't', 'a', 't', 'u', 's'],
    }
}

impl ActivityKind {
    /// Short word for this kind in the footer summary.
    fn short(self) -> (s: String)
        ensures
            s@ == spec_short(self),
    {
        match self {
            ActivityKind::Fetch => {
                let s = string_of("fetching");
                proof {
                    reveal_strlit("fetching");
                }
                s
            },
            ActivityKind::StatusRefresh => {
                let s = string_of("status");
                proof {
                    reveal_strlit("status");
                }
                s
            },
            ActivityKind::DiffRefresh => {
                let s = string_of("diff");
                proof {
                    reveal_strlit("diff");
                }
                s
            },
            ActivityKind::PrPoll => {
                let s = string_of("PR status");
                proof {
                    reveal_strlit("PR status");
                }
                s
            },
        }
    }
}

#[derive(Debug, Clone, Copy, PartialEq, Eq, Structural)]
pub enum ActivityScope {
    Repo(usize),
    Global,
}

#[derive(Debug, PartialEq, Eq)]
pub struct Activity {
    pub id: ActivityId,
    pub kind: ActivityKind,
    pub scope: ActivityScope,
    /// When the task started, on the state's clock (`clock_now`).
    pub started_at: u64,
    pub label: String,
}

impl Clone for Activity {
    fn clone(&self) -> (r: Self)
        ensures
            r == *self,
    {
        Activity {
            id: self.id,
            kind: self.kind,
            scope: self.scope,
            started_at: self.started_at,
            label: self.label.clone(),
        }
    }
}

#[verifier::external_type_specification]
#[verifier::external_body]
pub struct ExInstant(std::time::Instant);

/// `Instant::now`: a reading of the monotonic clock.
#[verifier::external_body]
fn instant_now() -> std::time::Instant {
    std::time::Instant::now()
}

/// `Instant::elapsed`: the time since `origin` on the monotonic clock.
#[verifier::external_body]
fn instant_elapsed(origin: &std::time::Instant) -> std::time::Duration {
    origin.elapsed()
}

/// `Duration::as_nanos`: the whole nanoseconds of `d`.
#[verifier::external_body]
fn duration_nanos(d: &std::time::Duration) -> u128 {
    d.as_nanos()
}

/// Whole nanoseconds since `origin`, saturating at `u64::MAX`.  The
/// clock is monotonic (a later call never gives less), which nothing here
/// states.
fn nanos_since(origin: &std::time::Instant) -> u64 {
    let m = duration_nanos(&instant_elapsed(origin));
    if m > 18446744073709551615u128 {
        u64::MAX
    } else {
        m as u64
    }
}

#[derive(Debug)]
pub struct ActivityState {
    next_id: u64,
    in_flight: Vec<Activity>,
    /// When each repository (by index) was last fetched successfully, in
    /// nanoseconds of this state's monotonic clock (`clock_now`); `None`
    /// when not this session.
    pub last_fetched_at: Vec<Option<u64>>,
    /// The start of this state's clock.
    origin: std::time::Instant,
}

impl View for ActivityState {
    /// The id the next task gets, the tasks in flight, and when each
    /// repository was last fetched.
    type V = (u64, Seq<Activity>, Seq<Option<u64>>);

    closed spec fn view(&self) -> (u64, Seq<Activity>, Seq<Option<u64>>) {
        (self.next_id, self.in_flight@, self.last_fetched_at@)
    }
}

/// Every task in flight has an id below the next one to be issued, and no
/// two tasks share an id.
pub open spec fn ids_fresh(next: u64, acts: Seq<Activity>) -> bool {
    &&& forall|i: int| 0 <= i < acts.len() ==> (#[trigger] acts[i]).id.0 < next
    &&& forall|i: int, j: int| 0 <= i < j < acts.len() ==> #[trigger] acts[i].id != #[trigger] acts[j].id
}

/// A fetch of repository `repo` is among `acts`.
pub open spec fn spec_fetch_in_flight(acts: Seq<Activity>, repo: usize) -> bool {
    exists|i: int|
        0 <= i < acts.len() && (#[trigger] acts[i]).kind == ActivityKind::Fetch && acts[i].scope
            == ActivityScope::Repo(repo)
}

/// Repository `idx` is due for a fetch at time `now`: none is running, and
/// it was never fetched or its last fetch is at least `cadence_secs` old.
pub open spec fn spec_due(acts: Seq<Activity>, last: Option<u64>, idx: usize, now: u64, cadence_secs: u64) -> bool {
    !spec_fetch_in_flight(acts, idx) && match last {
        None => true,
        Some(t) => now >= t && (now - t) / 1_000_000_000 >= cadence_secs,
    }
}

/// `v` lists, in increasing order, exactly the repositories due for a
/// fetch at time `now`.
pub open spec fn is_due_list(acts: Seq<Activity>, last: Seq<Option<u64>>, now: u64, cadence_secs: u64, v: Seq<usize>) -> bool {
    &&& forall|i: int, j: int| 0 <= i < j < v.len() ==> v[i] < v[j]
    &&& forall|i: int| 0 <= i < v.len() ==> #[trigger] v[i] < last.len() && spec_due(acts, last[v[i] as int], v[i], now, cadence_secs)
    &&& forall|idx: usize| idx < last.len() && spec_due(acts, last[idx as int], idx, now, cadence_secs) ==> v.contains(idx)
}

/// The distinct kinds of `acts` in order of first appearance.
pub open spec fn distinct_kinds_of(acts: Seq<Activity>) -> Seq<ActivityKind>
    decreases acts.len(),
{
    if acts.len() == 0 {
        Seq::empty()
    } else {
        let prev = distinct_kinds_of(acts.drop_last());
        if prev.contains(acts.last().kind) {
            prev
        } else {
            prev.push(acts.last().kind)
        }
    }
}

/// The words for `kinds`, separated by `", "`.
pub open spec fn join_kinds(kinds: Seq<ActivityKind>) -> Seq<char>
    decreases kinds.len(),
{
    if kinds.len() == 0 {
        Seq::empty()
    } else if kinds.len() == 1 {
        spec_short(kinds[0])
    } else {
        join_kinds(kinds.drop_last()) + seq![',', ' '] + spec_short(kinds.last())
    }
}

pub open spec fn spinner() -> char {
    '⟳'
}

/// The footer line for the tasks in flight: empty when idle, `⟳ <label>`
/// for one task, `⟳ <n> tasks: <kinds>` for several.
pub open spec fn spec_summary(acts: Seq<Activity>) -> Seq<char> {
    if acts.len() == 0 {
        Seq::empty()
    } else if acts.len() == 1 {
        seq![spinner(), ' '] + acts[0].label@
    } else {
        seq![spinner(), ' '] + decimal(acts.len()) + seq![' ', 't', 'a', 's', 'k', 's', ':', ' ']
            + join_kinds(distinct_kinds_of(acts))
    }
}

fn kinds_contain(v: &Vec<ActivityKind>, k: ActivityKind) -> (b: bool)
    ensures
        b == v@.contains(k),
{
    let mut i: usize = 0;
    while i < v.len()
        invariant
            i <= v@.len(),
            forall|j: int| 0 <= j < i ==> v@[j] != k,
        decreases v@.len() - i,
    {
        if v[i] == k {
            return true;
        }
        i += 1;
    }
    false
}

/// The kinds among `acts` in order of first appearance, separated by
/// `", "`.
fn distinct_kinds(acts: &Vec<Activity>) -> (s: String)
    ensures
        s@ == join_kinds(distinct_kinds_of(acts@)),
{
    let mut seen: Vec<ActivityKind> = Vec::new();
    let mut i: usize = 0;
    while i < acts.len()
        invariant
            i <= acts@.len(),
            seen@ == distinct_kinds_of(acts@.subrange(0, i as int)),
        decreases acts@.len() - i,
    {
        proof {
            assert(acts@.subrange(0, i + 1).drop_last() =~= acts@.subrange(0, i as int));
        }
        if !kinds_contain(&seen, acts[i].kind) {
            seen.push(acts[i].kind);
        }
        i += 1;
    }
    assert(acts@.subrange(0, acts@.len() as int) =~= acts@);
    let mut out = String::new();
    let mut j: usize = 0;
    while j < seen.len()
        invariant
            j <= seen@.len(),
            out@ == join_kinds(seen@.subrange(0, j as int)),
        decreases seen@.len() - j,
    {
        proof {
            assert(seen@.subrange(0, j + 1).drop_last() =~= seen@.subrange(0, j as int));
        }
        if j > 0 {
            out.append(", ");
            proof {
                reveal_strlit(", ");
            }
        }
        let w = seen[j].short();
        out.append(w.as_str());
        proof {
            if j == 0 {
                assert(seen@.subrange(0, 1) =~= seq![seen@[0]]);
            }
        }
        j += 1;
    }
    assert(seen@.subrange(0, seen@.len() as int) =~= seen@);
    out
}

impl ActivityState {
    pub fn new() -> (s: Self)
        ensures
            s@ == (0u64, Seq::<Activity>::empty(), Seq::<Option<u64>>::empty()),
    {
        ActivityState { next_id: 0, in_flight: Vec::new(), last_fetched_at: Vec::new(), origin: instant_now() }
    }

    /// The state's monotonic clock: nanoseconds since it was made.  Times
    /// of tasks and fetches are read from it.
    pub fn clock_now(&self) -> u64 {
        nanos_since(&self.origin)
    }

    /// Register a task and return its id.
    pub fn start(&mut self, kind: ActivityKind, scope: ActivityScope, label: &str) -> (id: ActivityId)
        ensures
            id.0 == old(self)@.0,
            final(self)@.0 == old(self)@.0.wrapping_add(1),
            final(self)@.1.len() == old(self)@.1.len() + 1,
            final(self)@.1.subrange(0, old(self)@.1.len() as int) == old(self)@.1,
            final(self)@.1.last().id == id,
            final(self)@.1.last().kind == kind,
            final(self)@.1.last().scope == scope,
            final(self)@.1.last().label@ == label@,
            final(self)@.2 == old(self)@.2,
    {
        let id = ActivityId(self.next_id);
        self.next_id = self.next_id.wrapping_add(1);
        let started_at = self.clock_now();
        self.in_flight.push(Activity { id, kind, scope, started_at, label: string_of(label) });
        assert(self.in_flight@.subrange(0, old(self)@.1.len() as int) =~= old(self)@.1);
        id
    }

    /// Deregister the task with this id; other tasks stay, in order.
    pub fn finish(&mut self, id: ActivityId)
        ensures
            final(self)@.0 == old(self)@.0,
            final(self)@.1 == old(self)@.1.filter(|a: Activity| a.id != id),
            final(self)@.2 == old(self)@.2,
    {
        let ghost pred = |a: Activity| a.id != id;
        let mut kept: Vec<Activity> = Vec::new();
        let mut i: usize = 0;
        while i < self.in_flight.len()
            invariant
                i <= self.in_flight@.len(),
                self.in_flight@ == old(self)@.1,
                pred == (|a: Activity| a.id != id),
                kept@ == self.in_flight@.subrange(0, i as int).filter(pred),
            decreases self.in_flight@.len() - i,
        {
            proof {
                let x = self.in_flight@[i as int];
                assert(self.in_flight@.subrange(0, i + 1) =~= self.in_flight@.subrange(0, i as int).push(x));
                self.in_flight@.subrange(0, i as int).lemma_filter_push(x, pred);
            }
            let ghost before = kept@;
            if self.in_flight[i].id.0 != id.0 {
                let a = self.in_flight[i].clone();
                assert(pred(a));
                kept.push(a);
                assert(kept@ =~= before.push(self.in_flight@[i as int]));
            } else {
                assert(!pred(self.in_flight@[i as int]));
            }
            i += 1;
        }
        assert(self.in_flight@.subrange(0, self.in_flight@.len() as int) =~= self.in_flight@);
        self.in_flight = kept;
    }

    pub fn in_flight(&self) -> (r: &[Activity])
        ensures
            r@ == self@.1,
    {
        self.in_flight.as_slice()
    }

    pub fn is_empty(&self) -> (b: bool)
        ensures
            b == (self@.1.len() == 0),
    {
        self.in_flight.len() == 0
    }

    /// Is a fetch of this repository running?
    pub fn fetch_in_flight_for(&self, repo_idx: usize) -> (b: bool)
        ensures
            b == spec_fetch_in_flight(self@.1, repo_idx),
    {
        let mut i: usize = 0;
        while i < self.in_flight.len()
            invariant
                i <= self.in_flight@.len(),
                forall|j: int|
                    0 <= j < i ==> !((#[trigger] self.in_flight@[j]).kind == ActivityKind::Fetch
                        && self.in_flight@[j].scope == ActivityScope::Repo(repo_idx)),
            decreases self.in_flight@.len() - i,
        {
            let a = &self.in_flight[i];
            let is_fetch = match a.kind {
                ActivityKind::Fetch => true,
                _ => false,
            };
            let here = match a.scope {
                ActivityScope::Repo(r) => r == repo_idx,
                ActivityScope::Global => false,
            };
            if is_fetch && here {
                return true;
            }
            i += 1;
        }
        false
    }

    /// One-line summary for the sidebar footer; empty when idle.
    pub fn summary(&self) -> (s: String)
        ensures
            s@ == spec_summary(self@.1),
    {
        let n = self.in_flight.len();
        if n == 0 {
            return String::new();
        }
        let mut s = string_of("⟳ ");
        proof {
            reveal_strlit("⟳ ");
        }
        if n == 1 {
            s.append(self.in_flight[0].label.as_str());
            return s;
        }
        push_decimal(&mut s, n);
        s.append(" tasks: ");
        proof {
            reveal_strlit(" tasks: ");
        }
        let kinds = distinct_kinds(&self.in_flight);
        s.append(kinds.as_str());
        s
    }

    /// Forget repository `idx`: the times of later repositories move down
    /// one place.
    pub fn remove_repo(&mut self, idx: usize)
        ensures
            final(self)@.0 == old(self)@.0,
            final(self)@.1 == old(self)@.1,
            final(self)@.2 == if idx < old(self)@.2.len() {
                old(self)@.2.remove(idx as int)
            } else {
                old(self)@.2
            },
    {
        if idx < self.last_fetched_at.len() {
            self.last_fetched_at.remove(idx);
        }
    }

    /// Track `n` repositories: drop the times of repositories past `n`,
    /// and give new ones "never fetched".
    pub fn resize_repos(&mut self, n: usize)
        ensures
            final(self)@.0 == old(self)@.0,
            final(self)@.1 == old(self)@.1,
            final(self)@.2.len() == n,
            forall|i: int|
                0 <= i < n ==> #[trigger] final(self)@.2[i] == if i < old(
                    self,
                )@.2.len() {
                    old(self)@.2[i]
                } else {
                    None
                },
    {
        while self.last_fetched_at.len() > n
            invariant
                self@.0 == old(self)@.0,
                self@.1 == old(self)@.1,
                self@.2.len() <= old(self)@.2.len(),
                self@.2 == old(self)@.2.subrange(0, self@.2.len() as int),
                self@.2.len() >= n || self@.2.len() == old(self)@.2.len(),
            decreases self@.2.len(),
        {
            self.last_fetched_at.pop();
        }
        while self.last_fetched_at.len() < n
            invariant
                self@.0 == old(self)@.0,
                self@.1 == old(self)@.1,
                self@.2.len() <= n,
                self@.2.len() < n ==> self@.2.len() >= old(self)@.2.len(),
                self@.2.len() <= old(self)@.2.len() ==> self@.2 == old(self)@.2.subrange(0, self@.2.len() as int),
                forall|i: int|
                    0 <= i < self@.2.len() ==> #[trigger] self@.2[i] == if i < old(
                        self,
                    )@.2.len() {
                        old(self)@.2[i]
                    } else {
                        None
                    },
            decreases n - self@.2.len(),
        {
            self.last_fetched_at.push(None);
        }
    }

    /// Repositories due for a fetch at time `now` (nanoseconds on the
    /// state's clock), in index order.
    pub fn due_for_fetch_at(&self, now: u64, cadence_secs: u64) -> (v: Vec<usize>)
        ensures
            is_due_list(self@.1, self@.2, now, cadence_secs, v@),
    {
        let mut v: Vec<usize> = Vec::new();
        let mut idx: usize = 0;
        while idx < self.last_fetched_at.len()
            invariant
                idx <= self@.2.len(),
                forall|i: int, j: int| 0 <= i < j < v@.len() ==> v@[i] < v@[j],
                forall|i: int| 0 <= i < v@.len() ==> #[trigger] v@[i] < idx && spec_due(self@.1, self@.2[v@[i] as int], v@[i], now, cadence_secs),
                forall|k: usize| k < idx && spec_due(self@.1, self@.2[k as int], k, now, cadence_secs) ==> v@.contains(k),
            decreases self@.2.len() - idx,
        {
            let due = if self.fetch_in_flight_for(idx) {
                false
            } else {
                match self.last_fetched_at[idx] {
                    None => true,
                    Some(t) => now >= t && (now - t) / 1_000_000_000 >= cadence_secs,
                }
            };
            if due {
                let ghost before = v@;
                v.push(idx);
                assert forall|k: usize| k < idx + 1 && spec_due(self@.1, self@.2[k as int], k, now, cadence_secs) implies v@.contains(k) by {
                    if k == idx {
                        assert(v@[v@.len() - 1] == k);
                    } else {
                        assert(before.contains(k));
                        let w = choose|w: int| 0 <= w < before.len() && before[w] == k;
                        assert(v@[w] == k);
                    }
                }
            }
            idx += 1;
        }
        v
    }

    /// Repositories due for a fetch now, with the given cadence.
    pub fn due_for_fetch(&self, cadence_secs: u64) -> (v: Vec<usize>)
        ensures
            exists|now: u64| #[trigger] is_due_list(self@.1, self@.2, now, cadence_secs, v@),
    {
        let now = self.clock_now();
        self.due_for_fetch_at(now, cadence_secs)
    }

    /// The fetches the background scheduler starts now: none when the
    /// cadence is 0 (the scheduler is off), else those due.
    pub fn scheduled_fetches(&self, cadence_secs: u64) -> (v: Vec<usize>)
        ensures
            cadence_secs == 0 ==> v@.len() == 0,
            cadence_secs > 0 ==> exists|now: u64| #[trigger] is_due_list(self@.1, self@.2, now, cadence_secs, v@),
    {
        if cadence_secs == 0 {
            Vec::new()
        } else {
            self.due_for_fetch(cadence_secs)
        }
    }
}

impl Default for ActivityState {
    fn default() -> (s: Self)
        ensures
            s@ == (0u64, Seq::<Activity>::empty(), Seq::<Option<u64>>::empty()),
    {
        ActivityState::new()
    }
}

/// Starting a task keeps ids unique and below the next id, as long as the
/// counter has not reached its maximum; finishing a task keeps them so too.
pub proof fn law_ids_stay_fresh(before: (u64, Seq<Activity>), after_start: (u64, Seq<Activity>), id: ActivityId, after_finish: Seq<Activity>, done: ActivityId)
    requires
        ids_fresh(before.0, before.1),
        before.0 < u64::MAX,
        id.0 == before.0,
        after_start.0 == before.0 + 1,
        after_start.1.len() == before.1.len() + 1,
        after_start.1.subrange(0, before.1.len() as int) == before.1,
        after_start.1.last().id == id,
        after_finish == after_start.1.filter(|a: Activity| a.id != done),
    ensures
        ids_fresh(after_start.0, after_start.1),
        ids_fresh(after_start.0, after_finish),
        forall|i: int| 0 <= i < after_finish.len() ==> (#[trigger] after_finish[i]).id != done,
{
    let s = after_start.1;
    let n = before.1.len() as int;
    assert forall|i: int| 0 <= i < s.len() implies (#[trigger] s[i]).id.0 < after_start.0 by {
        if i < n {
            assert(s[i] == s.subrange(0, n)[i]);
        }
    }
    assert forall|i: int, j: int| 0 <= i < j < s.len() implies #[trigger] s[i].id != #[trigger] s[j].id by {
        assert(s[i] == s.subrange(0, n)[i]);
        if j < n {
            assert(s[j] == s.subrange(0, n)[j]);
        } else {
            assert(before.1[i].id.0 < before.0);
        }
    }
    let pred = |a: Activity| a.id != done;
    assert forall|i: int| 0 <= i < after_finish.len() implies (#[trigger] after_finish[i]).id.0 < after_start.0 && after_finish[i].id != done by {
        s.lemma_filter_contains_rev(pred, after_finish[i]);
        s.lemma_filter_pred(pred, i);
    }
    lemma_filter_unique_ids(s, pred);
}

proof fn lemma_filter_unique_ids(s: Seq<Activity>, pred: spec_fn(Activity) -> bool)
    requires
        forall|i: int, j: int| 0 <= i < j < s.len() ==> #[trigger] s[i].id != #[trigger] s[j].id,
    ensures
        forall|i: int, j: int|
            0 <= i < j < s.filter(pred).len() ==> #[trigger] s.filter(pred)[i].id != #[trigger] s.filter(pred)[j].id,
    decreases s.len(),
{
    reveal_with_fuel(Seq::filter, 1);
    if s.len() > 0 {
        let d = s.drop_last();
        lemma_filter_unique_ids(d, pred);
        let f = d.filter(pred);
        if pred(s.last()) {
            assert(s.filter(pred) == f.push(s.last()));
            assert forall|i: int, j: int| 0 <= i < j < f.push(s.last()).len() implies #[trigger] f.push(s.last())[i].id != #[trigger] f.push(s.last())[j].id by {
                if j == f.len() {
                    d.lemma_filter_contains_rev(pred, f[i]);
                    let k = choose|k: int| 0 <= k < d.len() && d[k] == f[i];
                    assert(s[k] == d[k]);
                    assert(s[k].id != s[s.len() - 1].id);
                } else {
                    assert(f.push(s.last())[i] == f[i]);
                    assert(f.push(s.last())[j] == f[j]);
                }
            }
        }
    }
}

} // verus!
