//! Paths as the user types them: `~` expansion, making them absolute, and
//! the directory completions the add-repository dialog offers.

use vstd::prelude::*;

use crate::git::{last_pos, opt_str_view, path_join, rfind_char};
use crate::text::{chars_of, push_char, string_from_chars, string_of};
use crate::view::string_views;

verus! {

pub open spec fn msg_no_home_var() -> Seq<char> {
    seq![
        'H', 'O', 'M', 'E', ' ', 'e', 'n', 'v', 'i', 'r', 'o', 'n', 'm', 'e', 'n', 't', ' ', 'v', 'a', 'r', 'i', 'a', 'b',
        'l', 'e', ' ', 'n', 'o', 't', ' ', 's', 'e', 't',
    ]
}

/// An absolute path starts with `/`.
pub open spec fn is_absolute(p: Seq<char>) -> bool {
    p.len() > 0 && p[0] == '/'
}

/// `Path::join`: an absolute `p` replaces `base`, a relative one is
/// added below it.
pub open spec fn spec_join(base: Seq<char>, p: Seq<char>) -> Seq<char> {
    if is_absolute(p) {
        p
    } else {
        path_join(base, p)
    }
}

/// `s` starts with `~/`.
pub open spec fn under_home(s: Seq<char>) -> bool {
    s.len() >= 2 && s[0] == '~' && s[1] == '/'
}

/// `~` is the home directory and `~/rest` is `rest` below it; other
/// paths are unchanged.  Without a home directory `~` paths are an error.
pub open spec fn spec_expand_home(raw: Seq<char>, home: Option<Seq<char>>) -> Result<Seq<char>, Seq<char>> {
    if raw == seq!['~'] || under_home(raw) {
        match home {
            Some(h) => Ok(if raw == seq!['~'] { h } else { spec_join(h, raw.skip(2)) }),
            None => Err(msg_no_home_var()),
        }
    } else {
        Ok(raw)
    }
}

/// `raw` with `~` expanded, made absolute against `cwd`.
pub open spec fn spec_expand_path(raw: Seq<char>, home: Option<Seq<char>>, cwd: Seq<char>) -> Result<Seq<char>, Seq<char>> {
    match spec_expand_home(raw, home) {
        Ok(e) => Ok(spec_join(cwd, e)),
        Err(m) => Err(m),
    }
}

fn starts_with_slash(s: &str) -> (b: bool)
    ensures
        b == is_absolute(s@),
{
    s.unicode_len() > 0 && s.get_char(0) == '/'
}

/// `Path::join` of `base` and `p`.
pub fn join(base: &str, p: &str) -> (r: String)
    ensures
        r@ == spec_join(base@, p@),
{
    if starts_with_slash(p) {
        string_of(p)
    } else {
        crate::git::join_path(base, p)
    }
}

/// Expand `~` against the home directory (`home`, when there is one) and
/// make the path absolute against the working directory `cwd`.
pub fn expand_path(raw: &str, home: Option<&str>, cwd: &str) -> (r: Result<String, String>)
    ensures
        match spec_expand_path(raw@, opt_str_view(home), cwd@) {
            Ok(p) => r matches Ok(s) && s@ == p,
            Err(e) => r matches Err(m) && m@ == e,
        },
{
    let v = chars_of(raw);
    let n = v.len();
    let is_tilde = n == 1 && v[0] == '~';
    let is_under = n >= 2 && v[0] == '~' && v[1] == '/';
    assert(is_tilde == (raw@ == seq!['~'])) by {
        if n == 1 && v@[0] == '~' {
            assert(raw@ =~= seq!['~']);
        }
    }
    let expanded = if is_tilde || is_under {
        match home {
            Some(h) => if is_tilde {
                string_of(h)
            } else {
                let rest = string_from_chars(&v, 2, n);
                assert(rest@ =~= raw@.skip(2));
                join(h, rest.as_str())
            },
            None => {
                let m = string_of("HOME environment variable not set");
                proof {
                    reveal_strlit("HOME environment variable not set");
                    assert(m@ =~= msg_no_home_var());
                }
                return Err(m);
            },
        }
    } else {
        string_of(raw)
    };
    Ok(join(cwd, expanded.as_str()))
}

/// The path a completion lists, from what was typed: an empty input or
/// `~` lists the home directory, `~/rest` is taken below it (kept as typed
/// without a home directory); nothing is listed for `~` or an empty input
/// without a home directory.
pub open spec fn completion_target(prefix: Seq<char>, home: Option<Seq<char>>) -> Option<Seq<char>> {
    if prefix == seq!['~'] || prefix.len() == 0 {
        match home {
            Some(h) => Some(h.push('/')),
            None => None,
        }
    } else if under_home(prefix) {
        match home {
            Some(h) => Some(h.push('/') + prefix.skip(2)),
            None => Some(prefix),
        }
    } else {
        Some(prefix)
    }
}

/// The directory to list (up to and with the last `/`, else `./`) and the
/// start of the name to complete.
pub open spec fn split_dir(e: Seq<char>) -> (Seq<char>, Seq<char>) {
    match last_pos(e, '/') {
        Some(k) => (e.take(k + 1), e.skip(k + 1)),
        None => (seq!['.', '/'], e),
    }
}

/// What a completion of `prefix` lists: the directory and the name start.
pub open spec fn spec_completion_query(prefix: Seq<char>, home: Option<Seq<char>>) -> Option<(Seq<char>, Seq<char>)> {
    match completion_target(prefix, home) {
        Some(e) => Some(split_dir(e)),
        None => None,
    }
}

/// The directory to list for completing `prefix`, and the start of the
/// name to complete (see `spec_completion_query`).
pub fn completion_query(prefix: &str, home: Option<&str>) -> (r: Option<(String, String)>)
    ensures
        match spec_completion_query(prefix@, opt_str_view(home)) {
            Some((d, s)) => r matches Some((dr, sr)) && dr@ == d && sr@ == s,
            None => r.is_none(),
        },
{
    let p = chars_of(prefix);
    let n = p.len();
    let is_tilde = n == 1 && p[0] == '~';
    assert(is_tilde == (prefix@ == seq!['~'])) by {
        if n == 1 && p@[0] == '~' {
            assert(prefix@ =~= seq!['~']);
        }
    }
    let target = if is_tilde || n == 0 {
        match home {
            Some(h) => {
                let mut t = string_of(h);
                push_char(&mut t, '/');
                t
            },
            None => return None,
        }
    } else if n >= 2 && p[0] == '~' && p[1] == '/' {
        match home {
            Some(h) => {
                let mut t = string_of(h);
                push_char(&mut t, '/');
                let rest = string_from_chars(&p, 2, n);
                t.append(rest.as_str());
                assert(rest@ =~= prefix@.skip(2));
                t
            },
            None => string_of(prefix),
        }
    } else {
        string_of(prefix)
    };
    let e = chars_of(target.as_str());
    let len = e.len();
    match rfind_char(&e, '/') {
        Some(k) => {
            proof {
                let c = choose|i: int| 0 <= i < e@.len() && e@[i] == '/' && forall|j: int| i < j < e@.len() ==> e@[j] != '/';
                assert(c == k);
            }
            let d = string_from_chars(&e, 0, k + 1);
            let s = string_from_chars(&e, k + 1, len);
            assert(d@ =~= e@.take(k + 1));
            assert(s@ =~= e@.skip(k + 1));
            Some((d, s))
        },
        None => {
            let d = string_of("./");
            proof {
                reveal_strlit("./");
                assert(d@ =~= seq!['.', '/']);
            }
            Some((d, target))
        },
    }
}

/// Lexicographic order of characters, as `str`'s `<`.
pub open spec fn lex_lt(a: Seq<char>, b: Seq<char>) -> bool
    decreases a.len(),
{
    if a.len() == 0 {
        b.len() > 0
    } else if b.len() == 0 {
        false
    } else if a[0] != b[0] {
        a[0] < b[0]
    } else {
        lex_lt(a.drop_first(), b.drop_first())
    }
}

pub open spec fn lex_le(a: Seq<char>, b: Seq<char>) -> bool {
    a == b || lex_lt(a, b)
}

/// In lexicographic order.
pub open spec fn lex_sorted(s: Seq<Seq<char>>) -> bool {
    forall|i: int, j: int| 0 <= i < j < s.len() ==> lex_le(#[trigger] s[i], #[trigger] s[j])
}

/// Two different strings are ordered one way or the other.
pub proof fn lemma_lex_total(a: Seq<char>, b: Seq<char>)
    ensures
        a == b || lex_lt(a, b) || lex_lt(b, a),
    decreases a.len(),
{
    if a.len() > 0 && b.len() > 0 && a[0] == b[0] {
        lemma_lex_total(a.drop_first(), b.drop_first());
        if a.drop_first() == b.drop_first() {
            assert(a =~= seq![a[0]] + a.drop_first());
            assert(b =~= seq![b[0]] + b.drop_first());
        }
    } else if a.len() == 0 && b.len() == 0 {
        assert(a =~= b);
    }
}

/// The order is transitive.
pub proof fn lemma_lex_trans(a: Seq<char>, b: Seq<char>, c: Seq<char>)
    requires
        lex_lt(a, b),
        lex_lt(b, c),
    ensures
        lex_lt(a, c),
    decreases a.len(),
{
    if a.len() > 0 && b.len() > 0 && c.len() > 0 && a[0] == b[0] && b[0] == c[0] {
        lemma_lex_trans(a.drop_first(), b.drop_first(), c.drop_first());
    }
}

/// `a < b` compared character by character.
pub(crate) fn lex_less(a: &Vec<char>, b: &Vec<char>) -> (r: bool)
    ensures
        r == lex_lt(a@, b@),
{
    let mut i: usize = 0;
    assert(a@.skip(0) =~= a@ && b@.skip(0) =~= b@);
    while i < a.len() && i < b.len() && a[i] == b[i]
        invariant
            i <= a@.len(),
            i <= b@.len(),
            lex_lt(a@, b@) == lex_lt(a@.skip(i as int), b@.skip(i as int)),
        decreases a@.len() - i,
    {
        assert(a@.skip(i as int).drop_first() =~= a@.skip(i + 1));
        assert(b@.skip(i as int).drop_first() =~= b@.skip(i + 1));
        i += 1;
    }
    if i == a.len() {
        i < b.len()
    } else if i == b.len() {
        false
    } else {
        a[i] < b[i]
    }
}

/// Put `x` into the sorted `sorted` before the first entry greater than it.
fn insert_sorted(sorted: &mut Vec<Vec<char>>, x: Vec<char>)
    requires
        lex_sorted(crate::keys::views(old(sorted)@)),
    ensures
        lex_sorted(crate::keys::views(final(sorted)@)),
        crate::keys::views(final(sorted)@).to_multiset() == crate::keys::views(old(sorted)@).to_multiset().insert(x@),
{
    let ghost s = crate::keys::views(sorted@);
    let mut p: usize = 0;
    while p < sorted.len() && !lex_less(&x, &sorted[p])
        invariant
            p <= sorted@.len(),
            s == crate::keys::views(sorted@),
            forall|j: int| 0 <= j < p ==> lex_le(#[trigger] s[j], x@),
        decreases sorted@.len() - p,
    {
        proof {
            lemma_lex_total(x@, s[p as int]);
        }
        p += 1;
    }
    let ghost xv = x@;
    sorted.insert(p, x);
    proof {
        broadcast use vstd::seq_lib::group_to_multiset_ensures;
        lemma_insert_keeps_sorted(s, p as int, xv);
        assert(crate::keys::views(sorted@) =~= s.insert(p as int, xv));
    }
}

/// Putting `x` after the entries not greater than it and before the first
/// greater one keeps a sorted sequence sorted.
pub proof fn lemma_insert_keeps_sorted(s: Seq<Seq<char>>, p: int, x: Seq<char>)
    requires
        0 <= p <= s.len(),
        lex_sorted(s),
        forall|j: int| 0 <= j < p ==> lex_le(#[trigger] s[j], x),
        p < s.len() ==> lex_lt(x, s[p]),
    ensures
        lex_sorted(s.insert(p, x)),
{
    let t = s.insert(p, x);
    assert forall|i: int, j: int| 0 <= i < j < t.len() implies lex_le(#[trigger] t[i], #[trigger] t[j]) by {
        if j < p {
            assert(t[i] == s[i] && t[j] == s[j]);
        } else if j == p {
            assert(t[i] == s[i] && t[j] == x);
        } else if i < p {
            assert(t[i] == s[i] && t[j] == s[j - 1]);
            assert(lex_le(s[i], x));
            assert(lex_le(s[p], s[j - 1]));
            if s[p] != s[j - 1] {
                lemma_lex_trans(x, s[p], s[j - 1]);
            }
            if s[i] != x {
                lemma_lex_trans(s[i], x, s[j - 1]);
            }
        } else if i == p {
            assert(t[i] == x && t[j] == s[j - 1]);
            assert(lex_le(s[p], s[j - 1]));
            if s[p] != s[j - 1] {
                lemma_lex_trans(x, s[p], s[j - 1]);
            }
        } else {
            assert(t[i] == s[i - 1] && t[j] == s[j - 1]);
        }
    }
}

/// A name offered for completion: not hidden, and starting with what was
/// typed.
pub open spec fn offered(name: Seq<char>, start: Seq<char>) -> bool {
    !(name.len() > 0 && name[0] == '.') && start.is_prefix_of(name)
}

/// How many completions are offered at most.
pub const MAX_COMPLETIONS: usize = 10;

/// The names of `names` that are offered.
pub open spec fn offered_names(names: Seq<Seq<char>>, start: Seq<char>) -> Seq<Seq<char>> {
    names.filter(|n: Seq<char>| offered(n, start))
}

fn is_prefix(p: &Vec<char>, s: &Vec<char>) -> (b: bool)
    ensures
        b == p@.is_prefix_of(s@),
{
    if p.len() > s.len() {
        return false;
    }
    let mut i: usize = 0;
    while i < p.len()
        invariant
            i <= p@.len() <= s@.len(),
            forall|j: int| 0 <= j < i ==> p@[j] == s@[j],
        decreases p@.len() - i,
    {
        if p[i] != s[i] {
            return false;
        }
        i += 1;
    }
    assert(p@ =~= s@.take(p@.len() as int));
    true
}

/// The completions among the directory names `names`: those offered for
/// `start`, in lexicographic order, at most `MAX_COMPLETIONS` of them.
pub fn pick_completions(names: &Vec<String>, start: &str) -> (r: Vec<String>)
    ensures
        exists|s: Seq<Seq<char>>|
            #![trigger lex_sorted(s)]
            s.to_multiset() == offered_names(string_views(names@), start@).to_multiset() && lex_sorted(s)
                && string_views(r@) == s.take(
                if s.len() > MAX_COMPLETIONS {
                    MAX_COMPLETIONS as int
                } else {
                    s.len() as int
                },
            ),
{
    let st = chars_of(start);
    let ghost all = string_views(names@);
    let ghost pred = |n: Seq<char>| offered(n, start@);
    let mut sorted: Vec<Vec<char>> = Vec::new();
    let mut i: usize = 0;
    assert(crate::keys::views(sorted@) =~= Seq::<Seq<char>>::empty());
    assert(all.take(0).filter(pred) =~= Seq::<Seq<char>>::empty());
    while i < names.len()
        invariant
            i <= names@.len(),
            st@ == start@,
            all == string_views(names@),
            pred == (|n: Seq<char>| offered(n, start@)),
            lex_sorted(crate::keys::views(sorted@)),
            crate::keys::views(sorted@).to_multiset() == all.take(i as int).filter(pred).to_multiset(),
        decreases names@.len() - i,
    {
        let name = chars_of(names[i].as_str());
        proof {
            assert(all.take(i + 1) =~= all.take(i as int).push(all[i as int]));
            all.take(i as int).lemma_filter_push(all[i as int], pred);
            assert(name@ == all[i as int]);
        }
        let hidden = name.len() > 0 && name[0] == '.';
        if !hidden && is_prefix(&st, &name) {
            proof {
                broadcast use vstd::seq_lib::group_to_multiset_ensures;
            }
            insert_sorted(&mut sorted, name);
        }
        i += 1;
    }
    assert(all.take(all.len() as int) =~= all);
    let n = if sorted.len() > MAX_COMPLETIONS {
        MAX_COMPLETIONS
    } else {
        sorted.len()
    };
    let ghost sv = crate::keys::views(sorted@);
    let mut out: Vec<String> = Vec::new();
    let mut k: usize = 0;
    while k < n
        invariant
            k <= n <= sorted@.len(),
            sv == crate::keys::views(sorted@),
            string_views(out@) == sv.take(k as int),
        decreases n - k,
    {
        let s = string_from_chars(&sorted[k], 0, sorted[k].len());
        assert(s@ =~= sv[k as int]);
        let ghost pre = string_views(out@);
        out.push(s);
        assert(string_views(out@) =~= pre.push(s@));
        assert(sv.take(k + 1) =~= sv.take(k as int).push(sv[k as int]));
        k += 1;
    }
    assert(lex_sorted(sv));
    out
}

} // verus!
