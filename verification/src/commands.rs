//! The `git` command lines grove runs for the operations that go through
//! the git CLI (so that the user's own git configuration applies), and
//! the message shown when one fails.

use vstd::prelude::*;

use crate::text::{spec_trim, string_of};

verus! {

/// `git -C <cwd> <args...>`.
#[derive(Debug)]
pub struct GitCommand {
    pub cwd: String,
    pub args: Vec<String>,
}

pub open spec fn arg_views(args: Seq<String>) -> Seq<Seq<char>> {
    args.map_values(|a: String| a@)
}

/// The command runs in `cwd` with exactly the arguments `args`.
pub open spec fn is_command(c: GitCommand, cwd: Seq<char>, args: Seq<Seq<char>>) -> bool {
    c.cwd@ == cwd && arg_views(c.args@) == args
}

pub open spec fn s_worktree() -> Seq<char> {
    seq!['w', 'o', 'r', 'k', 't', 'r', 'e', 'e']
}

pub open spec fn s_add() -> Seq<char> {
    seq!['a', 'd', 'd']
}

pub open spec fn s_branch() -> Seq<char> {
    seq!['b', 'r', 'a', 'n', 'c', 'h']
}

fn command(cwd: &str, args: Vec<String>) -> (c: GitCommand)
    ensures
        c.cwd@ == cwd@,
        c.args@ == args@,
{
    GitCommand { cwd: string_of(cwd), args }
}

fn arg(s: &str) -> (r: String)
    ensures
        r@ == s@,
{
    string_of(s)
}

/// `git worktree add -b <branch> <path> <base>`: a new branch off `base`
/// checked out at `path`.
pub fn create_worktree(repo_root: &str, branch: &str, path: &str, base: &str) -> (c: GitCommand)
    ensures
        is_command(c, repo_root@, seq![s_worktree(), s_add(), seq!['-', 'b'], branch@, path@, base@]),
{
    let a0 = arg("worktree");
    proof {
        reveal_strlit("worktree");
        assert(a0@ =~= seq!['w', 'o', 'r', 'k', 't', 'r', 'e', 'e']);
    }
    let a1 = arg("add");
    proof {
        reveal_strlit("add");
        assert(a1@ =~= seq!['a', 'd', 'd']);
    }
    let a2 = arg("-b");
    proof {
        reveal_strlit("-b");
        assert(a2@ =~= seq!['-', 'b']);
    }
    let a3 = arg(branch);
    let a4 = arg(path);
    let a5 = arg(base);
    let c = command(repo_root, vec![a0, a1, a2, a3, a4, a5]);
    assert(arg_views(c.args@) =~= seq![s_worktree(), s_add(), seq!['-', 'b'], branch@, path@, base@]);
    c
}

/// `git worktree remove <path>`.
pub fn remove_worktree(repo_root: &str, worktree_path: &str) -> (c: GitCommand)
    ensures
        is_command(c, repo_root@, seq![s_worktree(), seq!['r', 'e', 'm', 'o', 'v', 'e'], worktree_path@]),
{
    let a0 = arg("worktree");
    proof {
        reveal_strlit("worktree");
        assert(a0@ =~= seq!['w', 'o', 'r', 'k', 't', 'r', 'e', 'e']);
    }
    let a1 = arg("remove");
    proof {
        reveal_strlit("remove");
        assert(a1@ =~= seq!['r', 'e', 'm', 'o', 'v', 'e']);
    }
    let a2 = arg(worktree_path);
    let c = command(repo_root, vec![a0, a1, a2]);
    assert(arg_views(c.args@) =~= seq![s_worktree(), seq!['r', 'e', 'm', 'o', 'v', 'e'], worktree_path@]);
    c
}

/// `git add -- <file>` in the worktree.
pub fn stage_path(worktree_path: &str, file_path: &str) -> (c: GitCommand)
    ensures
        is_command(c, worktree_path@, seq![s_add(), seq!['-', '-'], file_path@]),
{
    let a0 = arg("add");
    proof {
        reveal_strlit("add");
        assert(a0@ =~= seq!['a', 'd', 'd']);
    }
    let a1 = arg("--");
    proof {
        reveal_strlit("--");
        assert(a1@ =~= seq!['-', '-']);
    }
    let a2 = arg(file_path);
    let c = command(worktree_path, vec![a0, a1, a2]);
    assert(arg_views(c.args@) =~= seq![s_add(), seq!['-', '-'], file_path@]);
    c
}

/// `git restore --staged -- <file>` in the worktree.
pub fn unstage_path(worktree_path: &str, file_path: &str) -> (c: GitCommand)
    ensures
        is_command(
            c,
            worktree_path@,
            seq![
                seq!['r', 'e', 's', 't', 'o', 'r', 'e'],
                seq!['-', '-', 's', 't', 'a', 'g', 'e', 'd'],
                seq!['-', '-'],
                file_path@,
            ],
        ),
{
    let a0 = arg("restore");
    proof {
        reveal_strlit("restore");
        assert(a0@ =~= seq!['r', 'e', 's', 't', 'o', 'r', 'e']);
    }
    let a1 = arg("--staged");
    proof {
        reveal_strlit("--staged");
        assert(a1@ =~= seq!['-', '-', 's', 't', 'a', 'g', 'e', 'd']);
    }
    let a2 = arg("--");
    proof {
        reveal_strlit("--");
        assert(a2@ =~= seq!['-', '-']);
    }
    let a3 = arg(file_path);
    let c = command(worktree_path, vec![a0, a1, a2, a3]);
    assert(arg_views(c.args@) =~= seq![
        seq!['r', 'e', 's', 't', 'o', 'r', 'e'],
        seq!['-', '-', 's', 't', 'a', 'g', 'e', 'd'],
        seq!['-', '-'],
        file_path@,
    ]);
    c
}

/// `git worktree add <path> <branch>`: an existing local branch checked
/// out at `path`.
pub fn create_worktree_from_existing(repo_root: &str, branch: &str, path: &str) -> (c: GitCommand)
    ensures
        is_command(c, repo_root@, seq![s_worktree(), s_add(), path@, branch@]),
{
    let a0 = arg("worktree");
    proof {
        reveal_strlit("worktree");
        assert(a0@ =~= seq!['w', 'o', 'r', 'k', 't', 'r', 'e', 'e']);
    }
    let a1 = arg("add");
    proof {
        reveal_strlit("add");
        assert(a1@ =~= seq!['a', 'd', 'd']);
    }
    let a2 = arg(path);
    let a3 = arg(branch);
    let c = command(repo_root, vec![a0, a1, a2, a3]);
    assert(arg_views(c.args@) =~= seq![s_worktree(), s_add(), path@, branch@]);
    c
}

/// `git worktree add --track -b <local> <path> <remote>/<branch>`: a new
/// local branch tracking the remote one, checked out at `path`.
pub fn create_worktree_from_remote(repo_root: &str, remote: &str, branch_name: &str, local_name: &str, path: &str) -> (c: GitCommand)
    ensures
        is_command(
            c,
            repo_root@,
            seq![
                s_worktree(),
                s_add(),
                seq!['-', '-', 't', 'r', 'a', 'c', 'k'],
                seq!['-', 'b'],
                local_name@,
                path@,
                remote@ + seq!['/'] + branch_name@,
            ],
        ),
{
    let mut remote_ref = string_of(remote);
    crate::text::push_char(&mut remote_ref, '/');
    remote_ref.append(branch_name);
    let a0 = arg("worktree");
    proof {
        reveal_strlit("worktree");
        assert(a0@ =~= seq!['w', 'o', 'r', 'k', 't', 'r', 'e', 'e']);
    }
    let a1 = arg("add");
    proof {
        reveal_strlit("add");
        assert(a1@ =~= seq!['a', 'd', 'd']);
    }
    let a2 = arg("--track");
    proof {
        reveal_strlit("--track");
        assert(a2@ =~= seq!['-', '-', 't', 'r', 'a', 'c', 'k']);
    }
    let a3 = arg("-b");
    proof {
        reveal_strlit("-b");
        assert(a3@ =~= seq!['-', 'b']);
    }
    let a4 = arg(local_name);
    let a5 = arg(path);
    let a6 = remote_ref;
    assert(a6@ =~= remote@ + seq!['/'] + branch_name@);
    let c = command(repo_root, vec![a0, a1, a2, a3, a4, a5, a6]);
    assert(arg_views(c.args@) =~= seq![
        s_worktree(),
        s_add(),
        seq!['-', '-', 't', 'r', 'a', 'c', 'k'],
        seq!['-', 'b'],
        local_name@,
        path@,
        remote@ + seq!['/'] + branch_name@,
    ]);
    c
}

/// Deleting a branch the caller has found merged into its base:
/// `git branch -D <branch>`.  The merge check is grove's own, against the
/// repository's base branch; git's `-d` check, which compares with the
/// branch's upstream instead, would refuse a merged branch whose upstream
/// is behind it, so it is not asked for.
pub fn delete_branch(repo_root: &str, branch: &str) -> (c: GitCommand)
    ensures
        is_command(c, repo_root@, seq![s_branch(), seq!['-', 'D'], branch@]),
{
    force_delete_branch(repo_root, branch)
}

/// `git branch -D <branch>`: unconditional.
pub fn force_delete_branch(repo_root: &str, branch: &str) -> (c: GitCommand)
    ensures
        is_command(c, repo_root@, seq![s_branch(), seq!['-', 'D'], branch@]),
{
    let a0 = arg("branch");
    proof {
        reveal_strlit("branch");
        assert(a0@ =~= seq!['b', 'r', 'a', 'n', 'c', 'h']);
    }
    let a1 = arg("-D");
    proof {
        reveal_strlit("-D");
        assert(a1@ =~= seq!['-', 'D']);
    }
    let a2 = arg(branch);
    let c = command(repo_root, vec![a0, a1, a2]);
    assert(arg_views(c.args@) =~= seq![s_branch(), seq!['-', 'D'], branch@]);
    c
}

/// `git fetch --all --prune --quiet`.
pub fn fetch_remote(repo_root: &str) -> (c: GitCommand)
    ensures
        is_command(
            c,
            repo_root@,
            seq![
                seq!['f', 'e', 't', 'c', 'h'],
                seq!['-', '-', 'a', 'l', 'l'],
                seq!['-', '-', 'p', 'r', 'u', 'n', 'e'],
                seq!['-', '-', 'q', 'u', 'i', 'e', 't'],
            ],
        ),
{
    let a0 = arg("fetch");
    proof {
        reveal_strlit("fetch");
        assert(a0@ =~= seq!['f', 'e', 't', 'c', 'h']);
    }
    let a1 = arg("--all");
    proof {
        reveal_strlit("--all");
        assert(a1@ =~= seq!['-', '-', 'a', 'l', 'l']);
    }
    let a2 = arg("--prune");
    proof {
        reveal_strlit("--prune");
        assert(a2@ =~= seq!['-', '-', 'p', 'r', 'u', 'n', 'e']);
    }
    let a3 = arg("--quiet");
    proof {
        reveal_strlit("--quiet");
        assert(a3@ =~= seq!['-', '-', 'q', 'u', 'i', 'e', 't']);
    }
    let c = command(repo_root, vec![a0, a1, a2, a3]);
    assert(arg_views(c.args@) =~= seq![
        seq!['f', 'e', 't', 'c', 'h'],
        seq!['-', '-', 'a', 'l', 'l'],
        seq!['-', '-', 'p', 'r', 'u', 'n', 'e'],
        seq!['-', '-', 'q', 'u', 'i', 'e', 't'],
    ]);
    c
}

/// The arguments separated by single spaces.
pub open spec fn joined(args: Seq<Seq<char>>) -> Seq<char>
    decreases args.len(),
{
    if args.len() == 0 {
        Seq::empty()
    } else if args.len() == 1 {
        args[0]
    } else {
        joined(args.drop_last()) + seq![' '] + args.last()
    }
}

/// `git <args> failed: <stderr, trimmed>`.
pub fn failure_message(c: &GitCommand, stderr: &str) -> (m: String)
    ensures
        m@ == seq!['g', 'i', 't', ' '] + joined(arg_views(c.args@)) + seq![' ', 'f', 'a', 'i', 'l', 'e', 'd', ':', ' ']
            + spec_trim(stderr@),
{
    let mut m = string_of("git ");
    proof {
        reveal_strlit("git ");
    }
    let ghost head = m@;
    let mut i: usize = 0;
    while i < c.args.len()
        invariant
            i <= c.args@.len(),
            m@ == head + joined(arg_views(c.args@.subrange(0, i as int))),
        decreases c.args@.len() - i,
    {
        proof {
            assert(arg_views(c.args@.subrange(0, i + 1)).drop_last() =~= arg_views(c.args@.subrange(0, i as int)));
        }
        if i > 0 {
            crate::text::push_char(&mut m, ' ');
        }
        m.append(c.args[i].as_str());
        proof {
            if i == 0 {
                assert(arg_views(c.args@.subrange(0, 1)) =~= seq![c.args@[0]@]);
            }
            assert(m@ =~= head + joined(arg_views(c.args@.subrange(0, i + 1))));
        }
        i += 1;
    }
    assert(c.args@.subrange(0, c.args@.len() as int) =~= c.args@);
    m.append(" failed: ");
    proof {
        reveal_strlit(" failed: ");
    }
    let t = crate::text::trim(stderr);
    m.append(t.as_str());
    m
}

} // verus!
