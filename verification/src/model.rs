//! Repositories, worktrees and their status as the sidebar shows them.

use vstd::prelude::*;

verus! {

/// A repository grove tracks, with the worktrees discovered in it.
#[derive(Debug)]
pub struct Repo {
    pub name: String,
    pub root_path: String,
    pub base_branch: String,
    pub worktrees: Vec<Worktree>,
}

/// One checkout of a repository.  Its identity is its `path`; `head` is
/// only its current state and may change underneath (`git switch`).
#[derive(Debug)]
pub struct Worktree {
    pub head: HeadRef,
    pub path: String,
    pub is_primary: bool,
    pub status: Option<WorktreeStatus>,
    pub pr: Option<PrStatus>,
}

/// What a worktree's HEAD points at: a branch, or, for a detached HEAD
/// (a rebase, a bisect, a checked-out commit), its abbreviated commit id.
/// Both are listed in the sidebar.
#[derive(Debug)]
pub enum HeadRef {
    Branch(String),
    /// Abbreviated commit id of a detached HEAD.
    Detached(String),
}

pub open spec fn detached_prefix() -> Seq<char> {
    seq!['(', 'd', 'e', 't', 'a', 'c', 'h', 'e', 'd', ')', ' ']
}

impl HeadRef {
    /// The label shown for this HEAD: the branch name, or
    /// `(detached) <oid>`.
    pub open spec fn spec_label(&self) -> Seq<char> {
        match self {
            HeadRef::Branch(name) => name@,
            HeadRef::Detached(oid) => detached_prefix() + oid@,
        }
    }

    pub fn label(&self) -> (s: String)
        ensures
            s@ == self.spec_label(),
    {
        match self {
            HeadRef::Branch(name) => name.clone(),
            HeadRef::Detached(oid) => {
                let mut s = crate::text::string_of("(detached) ");
                proof {
                    reveal_strlit("(detached) ");
                }
                s.append(oid.as_str());
                s
            },
        }
    }

    /// The branch name when HEAD is on a branch; `None` when detached.
    pub fn branch_name(&self) -> (r: Option<&str>)
        ensures
            match self {
                HeadRef::Branch(name) => r.is_some() && r.unwrap()@ == name@,
                HeadRef::Detached(_) => r.is_none(),
            },
    {
        match self {
            HeadRef::Branch(name) => Some(name.as_str()),
            HeadRef::Detached(_) => None,
        }
    }
}

impl Clone for HeadRef {
    fn clone(&self) -> (r: Self)
        ensures
            r == *self,
    {
        match self {
            HeadRef::Branch(name) => HeadRef::Branch(name.clone()),
            HeadRef::Detached(oid) => HeadRef::Detached(oid.clone()),
        }
    }
}

impl Clone for Worktree {
    fn clone(&self) -> (r: Self)
        ensures
            r == *self,
    {
        Worktree {
            head: self.head.clone(),
            path: self.path.clone(),
            is_primary: self.is_primary,
            status: self.status,
            pr: self.pr,
        }
    }
}

/// Same HEAD: same kind, same name or id.
pub open spec fn same_head(a: HeadRef, b: HeadRef) -> bool {
    match (a, b) {
        (HeadRef::Branch(x), HeadRef::Branch(y)) => x@ == y@,
        (HeadRef::Detached(x), HeadRef::Detached(y)) => x@ == y@,
        _ => false,
    }
}

/// Two worktree records say the same: HEAD, path, primary flag, status
/// and pull request.
pub open spec fn same_worktree(a: Worktree, b: Worktree) -> bool {
    &&& same_head(a.head, b.head)
    &&& a.path@ == b.path@
    &&& a.is_primary == b.is_primary
    &&& a.status == b.status
    &&& a.pr == b.pr
}

pub open spec fn same_worktrees(a: Seq<Worktree>, b: Seq<Worktree>) -> bool {
    a.len() == b.len() && forall|i: int| 0 <= i < a.len() ==> same_worktree(#[trigger] a[i], b[i])
}

/// Do two worktree lists say the same?
pub fn worktrees_equal(a: &Vec<Worktree>, b: &Vec<Worktree>) -> (r: bool)
    ensures
        r == same_worktrees(a@, b@),
{
    if a.len() != b.len() {
        return false;
    }
    let mut i: usize = 0;
    while i < a.len()
        invariant
            i <= a@.len(),
            a@.len() == b@.len(),
            forall|j: int| 0 <= j < i ==> same_worktree(#[trigger] a@[j], b@[j]),
        decreases a@.len() - i,
    {
        let x = &a[i];
        let y = &b[i];
        let heads = match (&x.head, &y.head) {
            (HeadRef::Branch(p), HeadRef::Branch(q)) => crate::text::str_eq(p.as_str(), q.as_str()),
            (HeadRef::Detached(p), HeadRef::Detached(q)) => crate::text::str_eq(p.as_str(), q.as_str()),
            _ => false,
        };
        if !heads || !crate::text::str_eq(x.path.as_str(), y.path.as_str()) || x.is_primary != y.is_primary
            || x.status != y.status || x.pr != y.pr {
            return false;
        }
        i += 1;
    }
    true
}

impl Worktree {
    /// Sidebar label of this worktree (the label of its HEAD).
    pub fn label(&self) -> (s: String)
        ensures
            s@ == self.head.spec_label(),
    {
        self.head.label()
    }

    pub fn branch_name(&self) -> (r: Option<&str>)
        ensures
            match self.head {
                HeadRef::Branch(name) => r.is_some() && r.unwrap()@ == name@,
                HeadRef::Detached(_) => r.is_none(),
            },
    {
        self.head.branch_name()
    }
}

/// A pull request found for a worktree's branch.
#[derive(Debug, Clone, Copy, PartialEq, Eq, Structural)]
pub struct PrStatus {
    pub number: u32,
    pub state: PrState,
    pub checks: ChecksRollup,
}

#[derive(Debug, Clone, Copy, PartialEq, Eq, Structural)]
pub enum PrState {
    Open,
    Draft,
    Merged,
    Closed,
}

/// Combined state of the CI checks on a pull request's head commit.
#[derive(Debug, Clone, Copy, PartialEq, Eq, Structural)]
pub enum ChecksRollup {
    NoChecks,
    Pending,
    Passing,
    Failing,
}

/// Working-tree counts shown as badges next to a worktree.
#[derive(Debug, Clone, Copy, PartialEq, Eq, Structural)]
pub struct WorktreeStatus {
    pub staged: u32,
    pub modified: u32,
    pub deleted: u32,
    pub conflicts: u32,
    pub ahead: u32,
    pub behind: u32,
}

impl WorktreeStatus {
    pub open spec fn spec_is_clean(&self) -> bool {
        self.staged == 0 && self.modified == 0 && self.deleted == 0 && self.conflicts == 0
            && self.ahead == 0 && self.behind == 0
    }

    /// All counts zero.
    pub fn zero() -> (s: Self)
        ensures
            s.spec_is_clean(),
    {
        WorktreeStatus { staged: 0, modified: 0, deleted: 0, conflicts: 0, ahead: 0, behind: 0 }
    }

    pub fn is_clean(&self) -> (b: bool)
        ensures
            b == self.spec_is_clean(),
    {
        self.staged == 0 && self.modified == 0 && self.deleted == 0 && self.conflicts == 0
            && self.ahead == 0 && self.behind == 0
    }
}

} // verus!
