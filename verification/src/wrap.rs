//! Word-wrapping a message into a box of at most so many lines of at most
//! so many characters, as dialogs show errors.

use vstd::prelude::*;

use crate::keys::{split_chars, split_on, trim_chars, views};
use crate::text::{chars_of, is_whitespace, is_ws, spec_trim, string_from_chars};
use crate::view::string_views;

verus! {

/// Where a layout stands: the lines finished, the line being filled, and
/// whether the box has overflowed.
#[verifier::ext_equal]
pub struct WrapState {
    pub lines: Seq<Seq<char>>,
    pub cur: Seq<char>,
    pub over: bool,
}

/// `str::split_whitespace` as it scans `s`: the words finished and the
/// word in progress.
pub open spec fn ws_scan(s: Seq<char>) -> (Seq<Seq<char>>, Seq<char>)
    decreases s.len(),
{
    if s.len() == 0 {
        (Seq::empty(), Seq::empty())
    } else {
        let p = ws_scan(s.drop_last());
        if is_ws(s.last()) {
            if p.1.len() > 0 {
                (p.0.push(p.1), Seq::empty())
            } else {
                p
            }
        } else {
            (p.0, p.1.push(s.last()))
        }
    }
}

/// `str::split_whitespace`: the maximal runs of non-whitespace characters.
pub open spec fn words_of(s: Seq<char>) -> Seq<Seq<char>> {
    let p = ws_scan(s);
    if p.1.len() > 0 {
        p.0.push(p.1)
    } else {
        p.0
    }
}

/// `line` added below the finished lines; the box overflows once it
/// holds more than `max` lines.
pub open spec fn emit(st: WrapState, line: Seq<char>, max: nat) -> WrapState {
    WrapState { lines: st.lines.push(line), cur: st.cur, over: st.lines.len() + 1 > max }
}

/// A word wider than a line is cut into full-width lines (the line being
/// filled is finished first); what is left of it fits a line.
pub open spec fn hard_break(st: WrapState, rem: Seq<char>, width: nat, max: nat) -> (WrapState, Seq<char>)
    decreases rem.len(),
{
    if st.over || width == 0 || rem.len() <= width {
        (st, rem)
    } else {
        let s1 = if st.cur.len() > 0 {
            emit(WrapState { cur: Seq::empty(), ..st }, st.cur, max)
        } else {
            st
        };
        if s1.over {
            (s1, rem)
        } else {
            hard_break(emit(s1, rem.take(width as int), max), rem.skip(width as int), width, max)
        }
    }
}

/// One word placed: after hard-breaking, what is left joins the line
/// being filled (after a space) when it fits, else starts a new line.
pub open spec fn place_word(st: WrapState, w: Seq<char>, width: nat, max: nat) -> WrapState {
    let r = hard_break(st, w, width, max);
    let s1 = r.0;
    let rem = r.1;
    if s1.over || rem.len() == 0 {
        s1
    } else if (s1.cur.len() == 0 && rem.len() <= width) || (s1.cur.len() > 0 && s1.cur.len() + 1 + rem.len() <= width) {
        WrapState { cur: if s1.cur.len() > 0 { s1.cur + seq![' '] + rem } else { rem }, ..s1 }
    } else {
        WrapState { cur: rem, ..emit(s1, s1.cur, max) }
    }
}

/// The words placed left to right; nothing more happens once the box
/// overflowed.
pub open spec fn place_words(st: WrapState, ws: Seq<Seq<char>>, width: nat, max: nat) -> WrapState
    decreases ws.len(),
{
    if ws.len() == 0 {
        st
    } else {
        let s = place_words(st, ws.drop_last(), width, max);
        if s.over {
            s
        } else {
            place_word(s, ws.last(), width, max)
        }
    }
}

/// One paragraph placed: a blank one leaves one empty line (none at the
/// top, nor after another empty line); otherwise its words are placed
/// and its last line finished.
pub open spec fn place_paragraph(st: WrapState, para: Seq<char>, width: nat, max: nat) -> WrapState {
    if st.over {
        st
    } else if spec_trim(para).len() == 0 {
        if st.lines.len() > 0 && st.lines.last().len() > 0 {
            WrapState { lines: st.lines.push(Seq::empty()), ..st }
        } else {
            st
        }
    } else {
        let s = place_words(WrapState { cur: Seq::empty(), ..st }, words_of(para), width, max);
        let s2 = if !s.over && s.cur.len() > 0 {
            emit(s, s.cur, max)
        } else {
            s
        };
        WrapState { cur: Seq::empty(), ..s2 }
    }
}

/// The paragraphs placed in order from an empty box.
pub open spec fn place_paragraphs(ps: Seq<Seq<char>>, width: nat, max: nat) -> WrapState
    decreases ps.len(),
{
    if ps.len() == 0 {
        WrapState { lines: Seq::empty(), cur: Seq::empty(), over: false }
    } else {
        place_paragraph(place_paragraphs(ps.drop_last(), width, max), ps.last(), width, max)
    }
}

/// `lines` without its trailing empty lines.
pub open spec fn drop_blank_tail(lines: Seq<Seq<char>>) -> Seq<Seq<char>>
    decreases lines.len(),
{
    if lines.len() > 0 && lines.last().len() == 0 {
        drop_blank_tail(lines.drop_last())
    } else {
        lines
    }
}

/// The first `max` lines, the last one cut to leave room for a closing
/// `…` and then closed with it.
pub open spec fn ellipsize(lines: Seq<Seq<char>>, width: nat, max: nat) -> Seq<Seq<char>> {
    let kept = if lines.len() > max {
        lines.take(max as int)
    } else {
        lines
    };
    if kept.len() == 0 {
        kept
    } else {
        let last = kept.last();
        let keep: nat = if width > 0 { (width - 1) as nat } else { 0 };
        let shown = if last.len() > keep {
            last.take(keep as int)
        } else {
            last
        };
        kept.update(kept.len() - 1, shown.push('…'))
    }
}

/// The wrapped lines of `msg`: each `\n` starts a paragraph, words are
/// filled greedily, words longer than a line are cut, blank paragraphs
/// leave single empty lines and trailing empty lines are dropped; when
/// the text does not fit in `max` lines the last line shown ends in `…`.
pub open spec fn spec_wrap(msg: Seq<char>, width: nat, max: nat) -> Seq<Seq<char>> {
    if width == 0 || max == 0 {
        Seq::empty()
    } else {
        let st = place_paragraphs(split_on(msg, '\n'), width, max);
        let lines = drop_blank_tail(st.lines);
        if st.over || lines.len() > max {
            ellipsize(lines, width, max)
        } else {
            lines
        }
    }
}

/// No empty line starts the list or follows another empty line.
pub open spec fn no_blank_runs(lines: Seq<Seq<char>>) -> bool {
    forall|i: int| 0 <= i < lines.len() && (#[trigger] lines[i]).len() == 0 ==> i > 0 && lines[i - 1].len() > 0
}

/// Laying out `msg` ran out of room: the text did not fit in `max` lines.
pub open spec fn wrap_overflows(msg: Seq<char>, width: nat, max: nat) -> bool {
    let st = place_paragraphs(split_on(msg, '\n'), width, max);
    st.over || drop_blank_tail(st.lines).len() > max
}

proof fn lemma_emit_keeps(st: WrapState, line: Seq<char>, max: nat)
    requires
        no_blank_runs(st.lines),
        line.len() > 0,
    ensures
        no_blank_runs(emit(st, line, max).lines),
{
    let l = emit(st, line, max).lines;
    assert forall|i: int| 0 <= i < l.len() && (#[trigger] l[i]).len() == 0 implies i > 0 && l[i - 1].len() > 0 by {
        assert(i < st.lines.len());
        assert(l[i] == st.lines[i]);
        assert(l[i - 1] == st.lines[i - 1]);
    }
}

proof fn lemma_hard_break_keeps(st: WrapState, rem: Seq<char>, width: nat, max: nat)
    requires
        no_blank_runs(st.lines),
        width > 0,
    ensures
        no_blank_runs(hard_break(st, rem, width, max).0.lines),
        !hard_break(st, rem, width, max).0.over ==> hard_break(st, rem, width, max).1.len() <= width,
    decreases rem.len(),
{
    if st.over || rem.len() <= width {
    } else {
        let s1 = if st.cur.len() > 0 {
            emit(WrapState { cur: Seq::empty(), ..st }, st.cur, max)
        } else {
            st
        };
        if st.cur.len() > 0 {
            lemma_emit_keeps(WrapState { cur: Seq::empty(), ..st }, st.cur, max);
        }
        if !s1.over {
            lemma_emit_keeps(s1, rem.take(width as int), max);
            lemma_hard_break_keeps(emit(s1, rem.take(width as int), max), rem.skip(width as int), width, max);
        }
    }
}

proof fn lemma_place_word_keeps(st: WrapState, w: Seq<char>, width: nat, max: nat)
    requires
        no_blank_runs(st.lines),
        width > 0,
    ensures
        no_blank_runs(place_word(st, w, width, max).lines),
{
    lemma_hard_break_keeps(st, w, width, max);
    let r = hard_break(st, w, width, max);
    let s1 = r.0;
    if !(s1.over || r.1.len() == 0) && !((s1.cur.len() == 0 && r.1.len() <= width) || (s1.cur.len() > 0
        && s1.cur.len() + 1 + r.1.len() <= width)) {
        lemma_emit_keeps(s1, s1.cur, max);
    }
}

proof fn lemma_place_words_keeps(st: WrapState, ws: Seq<Seq<char>>, width: nat, max: nat)
    requires
        no_blank_runs(st.lines),
        width > 0,
    ensures
        no_blank_runs(place_words(st, ws, width, max).lines),
    decreases ws.len(),
{
    if ws.len() > 0 {
        lemma_place_words_keeps(st, ws.drop_last(), width, max);
        let s = place_words(st, ws.drop_last(), width, max);
        if !s.over {
            lemma_place_word_keeps(s, ws.last(), width, max);
        }
    }
}

proof fn lemma_place_paragraphs_keeps(ps: Seq<Seq<char>>, width: nat, max: nat)
    requires
        width > 0,
    ensures
        no_blank_runs(place_paragraphs(ps, width, max).lines),
    decreases ps.len(),
{
    if ps.len() > 0 {
        lemma_place_paragraphs_keeps(ps.drop_last(), width, max);
        let st = place_paragraphs(ps.drop_last(), width, max);
        let para = ps.last();
        if !st.over {
            if spec_trim(para).len() == 0 {
                if st.lines.len() > 0 && st.lines.last().len() > 0 {
                    let l = st.lines.push(Seq::<char>::empty());
                    assert forall|i: int| 0 <= i < l.len() && (#[trigger] l[i]).len() == 0 implies i > 0 && l[i - 1].len() > 0 by {
                        if i < st.lines.len() {
                            assert(l[i] == st.lines[i]);
                            assert(l[i - 1] == st.lines[i - 1]);
                        }
                    }
                }
            } else {
                let s0 = WrapState { cur: Seq::empty(), ..st };
                lemma_place_words_keeps(s0, words_of(para), width, max);
                let s = place_words(s0, words_of(para), width, max);
                if !s.over && s.cur.len() > 0 {
                    lemma_emit_keeps(s, s.cur, max);
                }
            }
        }
    }
}

proof fn lemma_prefix_keeps(lines: Seq<Seq<char>>, n: int)
    requires
        no_blank_runs(lines),
        0 <= n <= lines.len(),
    ensures
        no_blank_runs(lines.take(n)),
{
    let l = lines.take(n);
    assert forall|i: int| 0 <= i < l.len() && (#[trigger] l[i]).len() == 0 implies i > 0 && l[i - 1].len() > 0 by {
        assert(l[i] == lines[i]);
        assert(lines[i].len() == 0);
        assert(l[i - 1] == lines[i - 1]);
    }
}

proof fn lemma_drop_blank_tail(lines: Seq<Seq<char>>)
    requires
        no_blank_runs(lines),
    ensures
        no_blank_runs(drop_blank_tail(lines)),
        drop_blank_tail(lines).len() <= lines.len(),
        drop_blank_tail(lines).len() > 0 ==> drop_blank_tail(lines).last().len() > 0,
    decreases lines.len(),
{
    if lines.len() > 0 && lines.last().len() == 0 {
        lemma_prefix_keeps(lines, lines.len() - 1);
        assert(lines.drop_last() =~= lines.take(lines.len() - 1));
        lemma_drop_blank_tail(lines.drop_last());
    }
}

proof fn lemma_ellipsize(lines: Seq<Seq<char>>, width: nat, max: nat)
    requires
        no_blank_runs(lines),
    ensures
        no_blank_runs(ellipsize(lines, width, max)),
        ellipsize(lines, width, max).len() <= max,
        ellipsize(lines, width, max).len() > 0 ==> ellipsize(lines, width, max).last().len() > 0
            && ellipsize(lines, width, max).last().last() == '…',
{
    let kept = if lines.len() > max {
        lines.take(max as int)
    } else {
        lines
    };
    if lines.len() > max {
        lemma_prefix_keeps(lines, max as int);
    }
    assert(no_blank_runs(kept));
    if kept.len() > 0 {
        let e = ellipsize(lines, width, max);
        let last = kept.last();
        let keep: nat = if width > 0 { (width - 1) as nat } else { 0 };
        let shown = if last.len() > keep { last.take(keep as int) } else { last };
        assert(e == kept.update(kept.len() - 1, shown.push('…')));
        assert forall|i: int| 0 <= i < e.len() && (#[trigger] e[i]).len() == 0 implies i > 0 && e[i - 1].len() > 0 by {
            assert(i < kept.len() - 1);
            assert(e[i] == kept[i]);
            assert(e[i - 1] == kept[i - 1]);
        }
    }
}

/// The shape of a wrapped message: at most `max` lines; no empty line at
/// the top, at the bottom or right after another empty line; and when the
/// text did not fit, the last line shown ends in `…`.
pub proof fn law_wrap_shape(msg: Seq<char>, width: nat, max: nat)
    ensures
        spec_wrap(msg, width, max).len() <= max,
        no_blank_runs(spec_wrap(msg, width, max)),
        spec_wrap(msg, width, max).len() > 0 ==> spec_wrap(msg, width, max).last().len() > 0,
        width > 0 && max > 0 && wrap_overflows(msg, width, max) && spec_wrap(msg, width, max).len() > 0
            ==> spec_wrap(msg, width, max).last().last() == '…',
{
    if width > 0 && max > 0 {
        let st = place_paragraphs(split_on(msg, '\n'), width, max);
        lemma_place_paragraphs_keeps(split_on(msg, '\n'), width, max);
        lemma_drop_blank_tail(st.lines);
        let lines = drop_blank_tail(st.lines);
        if st.over || lines.len() > max {
            lemma_ellipsize(lines, width, max);
        }
    } else {
        assert(no_blank_runs(Seq::<Seq<char>>::empty()));
    }
}

/// Every line has at most `width` characters.
pub open spec fn all_fit(lines: Seq<Seq<char>>, width: nat) -> bool {
    forall|i: int| 0 <= i < lines.len() ==> (#[trigger] lines[i]).len() <= width
}

/// Pieces of `v` between whitespace (`str::split_whitespace`).
fn split_ws(v: &Vec<char>) -> (words: Vec<Vec<char>>)
    ensures
        views(words@) == words_of(v@),
{
    let mut words: Vec<Vec<char>> = Vec::new();
    let mut cur: Vec<char> = Vec::new();
    let mut i: usize = 0;
    while i < v.len()
        invariant
            i <= v@.len(),
            (views(words@), cur@) == ws_scan(v@.subrange(0, i as int)),
        decreases v@.len() - i,
    {
        let ghost pre = views(words@);
        assert(v@.subrange(0, i + 1).drop_last() =~= v@.subrange(0, i as int));
        if is_whitespace(v[i]) {
            if cur.len() > 0 {
                let mut w: Vec<char> = Vec::new();
                std::mem::swap(&mut w, &mut cur);
                words.push(w);
                assert(views(words@) =~= pre.push(w@));
            }
        } else {
            cur.push(v[i]);
        }
        i += 1;
    }
    assert(v@.subrange(0, v@.len() as int) =~= v@);
    let ghost pre = views(words@);
    if cur.len() > 0 {
        words.push(cur);
        assert(views(words@) =~= pre.push(cur@));
    }
    words
}

fn prefix_chars(v: &Vec<char>, n: usize) -> (r: Vec<char>)
    requires
        n <= v@.len(),
    ensures
        r@ == v@.take(n as int),
{
    let mut r: Vec<char> = Vec::new();
    let mut i: usize = 0;
    while i < n
        invariant
            i <= n <= v@.len(),
            r@ == v@.take(i as int),
        decreases n - i,
    {
        r.push(v[i]);
        i += 1;
        assert(r@ =~= v@.take(i as int));
    }
    r
}

fn suffix_chars(v: &Vec<char>, n: usize) -> (r: Vec<char>)
    requires
        n <= v@.len(),
    ensures
        r@ == v@.skip(n as int),
{
    let mut r: Vec<char> = Vec::new();
    let mut i: usize = n;
    while i < v.len()
        invariant
            n <= i <= v@.len(),
            r@ == v@.subrange(n as int, i as int),
        decreases v@.len() - i,
    {
        r.push(v[i]);
        i += 1;
        assert(r@ =~= v@.subrange(n as int, i as int));
    }
    assert(r@ =~= v@.skip(n as int));
    r
}

/// Add `line` to the finished lines; `true` once there are more than
/// `max`.
fn emit_line(all: &mut Vec<Vec<char>>, line: Vec<char>, max: usize) -> (over: bool)
    ensures
        views(final(all)@) == views(old(all)@).push(line@),
        over == (old(all)@.len() + 1 > max),
{
    all.push(line);
    assert(views(all@) =~= views(old(all)@).push(line@));
    all.len() > max
}

fn hard_break_exec(all: &mut Vec<Vec<char>>, cur: &mut Vec<char>, word: Vec<char>, width: usize, max: usize) -> (r: (Vec<char>, bool))
    requires
        width > 0,
        all_fit(views(old(all)@), width as nat),
        old(cur)@.len() <= width,
    ensures
        ({
            let hb = hard_break(WrapState { lines: views(old(all)@), cur: old(cur)@, over: false }, word@, width as nat, max as nat);
            &&& views(final(all)@) == hb.0.lines
            &&& final(cur)@ == hb.0.cur
            &&& r.1 == hb.0.over
            &&& r.0@ == hb.1
        }),
        all_fit(views(final(all)@), width as nat),
        final(cur)@.len() <= width,
        !r.1 ==> r.0@.len() <= width,
{
    let ghost target = hard_break(WrapState { lines: views(all@), cur: cur@, over: false }, word@, width as nat, max as nat);
    let mut remaining = word;
    let mut over = false;
    while remaining.len() > width && !over
        invariant
            width > 0,
            hard_break((WrapState { lines: views(all@), cur: cur@, over }), remaining@, width as nat, max as nat) == target,
            all_fit(views(all@), width as nat),
            cur@.len() <= width,
        decreases remaining@.len() + (if over { 0int } else { 1int }),
    {
        let ghost st = WrapState { lines: views(all@), cur: cur@, over };
        let ghost s1 = if st.cur.len() > 0 {
            emit(WrapState { cur: Seq::empty(), ..st }, st.cur, max as nat)
        } else {
            st
        };
        if cur.len() > 0 {
            let mut line: Vec<char> = Vec::new();
            std::mem::swap(&mut line, cur);
            over = emit_line(all, line, max);
        }
        assert(WrapState { lines: views(all@), cur: cur@, over } =~= s1);
        if !over {
            let head = prefix_chars(&remaining, width);
            let tail = suffix_chars(&remaining, width);
            over = emit_line(all, head, max);
            assert(WrapState { lines: views(all@), cur: cur@, over } =~= emit(s1, remaining@.take(width as int), max as nat));
            remaining = tail;
        }
    }
    (remaining, over)
}

fn place_word_exec(all: &mut Vec<Vec<char>>, cur: &mut Vec<char>, word: Vec<char>, width: usize, max: usize) -> (over: bool)
    requires
        width > 0,
        all_fit(views(old(all)@), width as nat),
        old(cur)@.len() <= width,
    ensures
        ({
            let st = place_word(WrapState { lines: views(old(all)@), cur: old(cur)@, over: false }, word@, width as nat, max as nat);
            &&& views(final(all)@) == st.lines
            &&& final(cur)@ == st.cur
            &&& over == st.over
        }),
        all_fit(views(final(all)@), width as nat),
        final(cur)@.len() <= width,
{
    let (mut remaining, over) = hard_break_exec(all, cur, word, width, max);
    if over || remaining.len() == 0 {
        return over;
    }
    let cur_len = cur.len();
    let rem_len = remaining.len();
    let fits = if cur_len == 0 {
        rem_len <= width
    } else {
        rem_len < width && cur_len < width - rem_len
    };
    if fits {
        let ghost before = cur@;
        if cur_len > 0 {
            cur.push(' ');
        }
        let ghost r = remaining@;
        cur.append(&mut remaining);
        assert(cur@ =~= if before.len() > 0 { before + seq![' '] + r } else { r });
        false
    } else {
        let mut line: Vec<char> = Vec::new();
        std::mem::swap(&mut line, cur);
        let o = emit_line(all, line, max);
        *cur = remaining;
        o
    }
}

fn place_paragraph_exec(all: &mut Vec<Vec<char>>, para: &Vec<char>, width: usize, max: usize) -> (over: bool)
    requires
        width > 0,
        all_fit(views(old(all)@), width as nat),
    ensures
        ({
            let st = place_paragraph(WrapState { lines: views(old(all)@), cur: Seq::empty(), over: false }, para@, width as nat, max as nat);
            &&& views(final(all)@) == st.lines
            &&& over == st.over
        }),
        all_fit(views(final(all)@), width as nat),
{
    let ghost st0 = WrapState { lines: views(all@), cur: Seq::empty(), over: false };
    let trimmed = trim_chars(para);
    if trimmed.len() == 0 {
        let n = all.len();
        if n > 0 && all[n - 1].len() > 0 {
            all.push(Vec::new());
            assert(views(all@) =~= st0.lines.push(Seq::empty()));
        }
        return false;
    }
    let words = split_ws(para);
    let ghost ws = views(words@);
    let mut cur: Vec<char> = Vec::new();
    let mut over = false;
    let mut wi: usize = 0;
    assert(ws.take(0) =~= Seq::<Seq<char>>::empty());
    assert(WrapState { lines: views(all@), cur: cur@, over } =~= place_words(st0, ws.take(0), width as nat, max as nat));
    while wi < words.len()
        invariant
            wi <= words@.len(),
            width > 0,
            ws == views(words@),
            (WrapState { lines: views(all@), cur: cur@, over }) == place_words(st0, ws.take(wi as int), width as nat, max as nat),
            all_fit(views(all@), width as nat),
            cur@.len() <= width,
        decreases words@.len() - wi,
    {
        assert(ws.take(wi + 1).drop_last() =~= ws.take(wi as int));
        assert(ws.take(wi + 1).last() == ws[wi as int]);
        if !over {
            let w = prefix_chars(&words[wi], words[wi].len());
            assert(w@ =~= ws[wi as int]);
            over = place_word_exec(all, &mut cur, w, width, max);
        }
        wi += 1;
    }
    assert(ws.take(ws.len() as int) =~= ws);
    if !over && cur.len() > 0 {
        over = emit_line(all, cur, max);
    }
    over
}

/// Word-wrap `msg` into at most `max_lines` lines of at most `width`
/// characters (see `spec_wrap`).
pub fn wrap_message(msg: &str, width: usize, max_lines: usize) -> (r: Vec<String>)
    ensures
        string_views(r@) == spec_wrap(msg@, width as nat, max_lines as nat),
        r@.len() <= max_lines,
        forall|i: int| 0 <= i < r@.len() ==> (#[trigger] r@[i])@.len() <= width,
{
    if width == 0 || max_lines == 0 {
        assert(string_views(Seq::<String>::empty()) =~= Seq::<Seq<char>>::empty());
        return Vec::new();
    }
    let chars = chars_of(msg);
    let paragraphs = split_chars(&chars, '\n');
    let ghost ps = views(paragraphs@);
    let mut all: Vec<Vec<char>> = Vec::new();
    let mut over = false;
    let mut pi: usize = 0;
    assert(ps.take(0) =~= Seq::<Seq<char>>::empty());
    assert(views(all@) =~= Seq::<Seq<char>>::empty());
    while pi < paragraphs.len()
        invariant
            pi <= paragraphs@.len(),
            width > 0,
            ps == views(paragraphs@),
            views(all@) == place_paragraphs(ps.take(pi as int), width as nat, max_lines as nat).lines,
            over == place_paragraphs(ps.take(pi as int), width as nat, max_lines as nat).over,
            place_paragraphs(ps.take(pi as int), width as nat, max_lines as nat).cur == Seq::<char>::empty(),
            all_fit(views(all@), width as nat),
        decreases paragraphs@.len() - pi,
    {
        assert(ps.take(pi + 1).drop_last() =~= ps.take(pi as int));
        assert(ps.take(pi + 1).last() == ps[pi as int]);
        let ghost prev = place_paragraphs(ps.take(pi as int), width as nat, max_lines as nat);
        assert(prev =~= WrapState { lines: views(all@), cur: Seq::empty(), over });
        if !over {
            over = place_paragraph_exec(&mut all, &paragraphs[pi], width, max_lines);
        }
        pi += 1;
    }
    assert(ps.take(ps.len() as int) =~= ps);
    let ghost st = place_paragraphs(ps, width as nat, max_lines as nat);
    while all.len() > 0 && all[all.len() - 1].len() == 0
        invariant
            drop_blank_tail(views(all@)) == drop_blank_tail(st.lines),
            all_fit(views(all@), width as nat),
        decreases all@.len(),
    {
        let ghost pre = views(all@);
        all.pop();
        assert(views(all@) =~= pre.drop_last());
    }
    let ghost lines = views(all@);
    assert(drop_blank_tail(lines) == lines);
    if over || all.len() > max_lines {
        all.truncate(max_lines);
        let ghost kept = views(all@);
        assert(kept =~= if lines.len() > max_lines { lines.take(max_lines as int) } else { lines });
        let n = all.len();
        if n > 0 {
            let last = all.pop().unwrap();
            let keep = width - 1;
            let mut shown = if last.len() > keep {
                prefix_chars(&last, keep)
            } else {
                last
            };
            shown.push('…');
            all.push(shown);
            assert(views(all@) =~= kept.update(kept.len() - 1, shown@));
        }
        assert(views(all@) == ellipsize(lines, width as nat, max_lines as nat));
    }
    assert(views(all@) == spec_wrap(msg@, width as nat, max_lines as nat));
    let mut out: Vec<String> = Vec::new();
    let mut i: usize = 0;
    while i < all.len()
        invariant
            i <= all@.len(),
            all@.len() <= max_lines,
            all_fit(views(all@), width as nat),
            string_views(out@) == views(all@).take(i as int),
        decreases all@.len() - i,
    {
        let s = string_from_chars(&all[i], 0, all[i].len());
        assert(s@ =~= all@[i as int]@);
        let ghost pre = string_views(out@);
        out.push(s);
        assert(string_views(out@) =~= pre.push(s@));
        assert(views(all@).take(i + 1) =~= views(all@).take(i as int).push(all@[i as int]@));
        i += 1;
    }
    assert(views(all@).take(all@.len() as int) =~= views(all@));
    proof {
        assert forall|k: int| 0 <= k < out@.len() implies (#[trigger] out@[k])@.len() <= width by {
            assert(string_views(out@)[k] == out@[k]@);
            assert(views(all@)[k] == all@[k]@);
        }
    }
    out
}

} // verus!
