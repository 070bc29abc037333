//! Single-line text input: a character buffer and a cursor that always
//! sits between two characters.

use vstd::prelude::*;

use crate::text::{push_char, string_from_chars};
use crate::view::{span_views, Span, Tone};

verus! {

/// Bytes `c` takes in UTF-8 (`char::len_utf8`).
pub open spec fn utf8_width(c: char) -> nat {
    let u = c as u32;
    if u < 0x80 {
        1
    } else if u < 0x800 {
        2
    } else if u < 0x10000 {
        3
    } else {
        4
    }
}

/// Bytes the characters of `s` take in UTF-8.
pub open spec fn utf8_len(s: Seq<char>) -> nat
    decreases s.len(),
{
    if s.len() == 0 {
        0
    } else {
        utf8_len(s.drop_last()) + utf8_width(s.last())
    }
}

/// Most characters an input holds, so that byte offsets fit in `usize`.
pub open spec fn max_input_chars() -> nat {
    (usize::MAX / 4) as nat
}

pub fn char_width(c: char) -> (w: usize)
    ensures
        w == utf8_width(c),
{
    let u = c as u32;
    if u < 0x80 {
        1
    } else if u < 0x800 {
        2
    } else if u < 0x10000 {
        3
    } else {
        4
    }
}

proof fn lemma_utf8_len_bound(s: Seq<char>)
    ensures
        utf8_len(s) <= 4 * s.len(),
    decreases s.len(),
{
    if s.len() > 0 {
        lemma_utf8_len_bound(s.drop_last());
    }
}

/// Text being typed into a modal, with the cursor's position counted in
/// characters.  The cursor is never past the end, so it always stands on
/// a character boundary of the text.
#[derive(Debug)]
pub struct TextInput {
    chars: Vec<char>,
    cursor: usize,
}


/// The spans of an input with text `t` and `c` characters before the
/// cursor.
pub open spec fn spec_input_spans(t: Seq<char>, c: nat) -> Seq<(Seq<char>, Tone)> {
    (if c > 0 {
        seq![(t.subrange(0, c as int), Tone::Plain)]
    } else {
        Seq::empty()
    }) + seq![
        if c < t.len() {
            (seq![t[c as int]], Tone::Cursor)
        } else {
            (seq![' '], Tone::Cursor)
        },
    ] + (if c + 1 < t.len() {
        seq![(t.subrange(c + 1int, t.len() as int), Tone::Plain)]
    } else {
        Seq::empty()
    })
}

impl View for TextInput {
    /// The text, and the number of characters before the cursor.
    type V = (Seq<char>, nat);

    closed spec fn view(&self) -> (Seq<char>, nat) {
        (self.chars@, self.cursor as nat)
    }
}

impl TextInput {
    #[verifier::type_invariant]
    spec fn wf(self) -> bool {
        self.cursor <= self.chars@.len() && self.chars@.len() <= max_input_chars()
    }

    /// Number of characters typed; never more than `max_input_chars()`.
    pub fn char_count(&self) -> (n: usize)
        ensures
            n == self@.0.len(),
            n <= max_input_chars(),
            self@.1 <= n,
    {
        proof {
            use_type_invariant(self);
        }
        self.chars.len()
    }

    /// An empty input.
    pub fn new() -> (t: Self)
        ensures
            t@ == (Seq::<char>::empty(), 0nat),
    {
        let t = TextInput { chars: Vec::new(), cursor: 0 };
        assert(t@.0 =~= Seq::<char>::empty());
        t
    }

    /// The text typed so far.
    pub fn value(&self) -> (s: String)
        ensures
            s@ == self@.0,
    {
        proof {
            use_type_invariant(self);
        }
        let s = string_from_chars(&self.chars, 0, self.chars.len());
        assert(self.chars@.subrange(0, self.chars@.len() as int) =~= self.chars@);
        s
    }

    /// The input as drawn: the text before the cursor, the character under
    /// the cursor (a space at the end) in reverse video, and the rest.
    pub fn spans(&self) -> (v: Vec<Span>)
        ensures
            span_views(v@) == spec_input_spans(self@.0, self@.1),
    {
        proof {
            use_type_invariant(self);
        }
        let n = self.chars.len();
        let c = self.cursor;
        let mut v: Vec<Span> = Vec::new();
        if c > 0 {
            v.push(Span { text: string_from_chars(&self.chars, 0, c), tone: Tone::Plain });
        }
        let mut under = String::new();
        if c < n {
            push_char(&mut under, self.chars[c]);
        } else {
            push_char(&mut under, ' ');
        }
        v.push(Span { text: under, tone: Tone::Cursor });
        if c + 1 < n {
            v.push(Span { text: string_from_chars(&self.chars, c + 1, n), tone: Tone::Plain });
        }
        assert(span_views(v@) =~= spec_input_spans(self@.0, self@.1));
        v
    }

    /// Byte offset of the cursor in the UTF-8 encoding of the text.
    pub fn cursor_byte(&self) -> (b: usize)
        ensures
            b == utf8_len(self@.0.subrange(0, self@.1 as int)),
    {
        proof {
            use_type_invariant(self);
        }
        let mut b: usize = 0;
        let mut i: usize = 0;
        while i < self.cursor
            invariant
                i <= self.cursor <= self.chars@.len() <= max_input_chars(),
                b == utf8_len(self.chars@.subrange(0, i as int)),
            decreases self.cursor - i,
        {
            proof {
                let p = self.chars@.subrange(0, i + 1);
                assert(p.drop_last() =~= self.chars@.subrange(0, i as int));
                lemma_utf8_len_bound(self.chars@.subrange(0, i as int));
            }
            b = b + char_width(self.chars[i]);
            i += 1;
        }
        b
    }

    /// Insert `c` before the cursor and move the cursor past it.
    pub fn insert_char(&mut self, c: char)
        requires
            old(self)@.0.len() < max_input_chars(),
        ensures
            final(self)@.0 == old(self)@.0.insert(old(self)@.1 as int, c),
            final(self)@.1 == old(self)@.1 + 1,
    {
        proof {
            use_type_invariant(&*self);
        }
        let mut taken = TextInput::new();
        std::mem::swap(&mut taken, self);
        let TextInput { mut chars, cursor } = taken;
        chars.insert(cursor, c);
        *self = TextInput { chars, cursor: cursor + 1 };
    }

    /// Remove the character before the cursor, if any.
    pub fn backspace(&mut self)
        ensures
            old(self)@.1 == 0 ==> final(self)@ == old(self)@,
            old(self)@.1 > 0 ==> final(self)@.0 == old(self)@.0.remove(old(self)@.1 - 1)
                && final(self)@.1 == old(self)@.1 - 1,
    {
        proof {
            use_type_invariant(&*self);
        }
        if self.cursor == 0 {
            return;
        }
        let mut taken = TextInput::new();
        std::mem::swap(&mut taken, self);
        let TextInput { mut chars, cursor } = taken;
        chars.remove(cursor - 1);
        *self = TextInput { chars, cursor: cursor - 1 };
    }

    /// Remove the character after the cursor, if any.
    pub fn delete(&mut self)
        ensures
            old(self)@.1 >= old(self)@.0.len() ==> final(self)@ == old(self)@,
            old(self)@.1 < old(self)@.0.len() ==> final(self)@.0 == old(self)@.0.remove(
                old(self)@.1 as int,
            ) && final(self)@.1 == old(self)@.1,
    {
        proof {
            use_type_invariant(&*self);
        }
        if self.cursor >= self.chars.len() {
            return;
        }
        let mut taken = TextInput::new();
        std::mem::swap(&mut taken, self);
        let TextInput { mut chars, cursor } = taken;
        chars.remove(cursor);
        *self = TextInput { chars, cursor };
    }

    pub fn move_left(&mut self)
        ensures
            final(self)@.0 == old(self)@.0,
            final(self)@.1 == if old(self)@.1 == 0 {
                0
            } else {
                (old(self)@.1 - 1) as nat
            },
    {
        proof {
            use_type_invariant(&*self);
        }
        if self.cursor > 0 {
            self.cursor = self.cursor - 1;
        }
    }

    pub fn move_right(&mut self)
        ensures
            final(self)@.0 == old(self)@.0,
            final(self)@.1 == if old(self)@.1 >= old(self)@.0.len() {
                old(self)@.1
            } else {
                old(self)@.1 + 1
            },
    {
        proof {
            use_type_invariant(&*self);
        }
        if self.cursor < self.chars.len() {
            self.cursor = self.cursor + 1;
        }
    }

    pub fn home(&mut self)
        ensures
            final(self)@ == (old(self)@.0, 0nat),
    {
        proof {
            use_type_invariant(&*self);
        }
        self.cursor = 0;
    }

    pub fn end(&mut self)
        ensures
            final(self)@ == (old(self)@.0, old(self)@.0.len()),
    {
        proof {
            use_type_invariant(&*self);
        }
        self.cursor = self.chars.len();
    }

    /// An input holding `s` with the cursor at its end, as typing `s`
    /// into an empty input leaves it.
    pub fn from_text(s: &str) -> (t: Self)
        requires
            s@.len() <= max_input_chars(),
        ensures
            t@ == (s@, s@.len()),
    {
        let chars = crate::text::chars_of(s);
        let n = chars.len();
        TextInput { chars, cursor: n }
    }
}

impl Default for TextInput {
    fn default() -> (t: Self)
        ensures
            t@ == (Seq::<char>::empty(), 0nat),
    {
        TextInput::new()
    }
}

/// Typing a character and then erasing it with backspace restores the
/// input: the text and the cursor are what they were.
pub proof fn law_insert_then_backspace(before: (Seq<char>, nat), c: char, mid: (Seq<char>, nat), after: (Seq<char>, nat))
    requires
        before.1 <= before.0.len(),
        mid.0 == before.0.insert(before.1 as int, c),
        mid.1 == before.1 + 1,
        after.0 == mid.0.remove(mid.1 - 1),
        after.1 == mid.1 - 1,
    ensures
        after == before,
{
    assert(after.0 =~= before.0);
}

} // verus!
