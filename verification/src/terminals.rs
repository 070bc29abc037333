//! The terminal tabs of one worktree, and the "agent" indicator that the
//! sidebar derives from what its shells last did.

use vstd::prelude::*;

verus! {

/// Whether keys go to the shell or scroll its history.
#[derive(Debug, Clone, Copy, PartialEq, Eq, Structural)]
pub enum TerminalMode {
    Insert,
    Scrollback,
}

impl Default for TerminalMode {
    fn default() -> (m: Self)
        ensures
            m == TerminalMode::Insert,
    {
        TerminalMode::Insert
    }
}

/// What a terminal's shell last signalled.
#[derive(Debug)]
pub struct TerminalActivity {
    /// A BEL arrived and the user has not looked at the terminal since.
    pub bell_pending: bool,
    /// The last window title the shell set.
    pub title: String,
    /// When the last output byte arrived, in milliseconds since the Unix
    /// epoch.
    pub last_output_at: Option<u64>,
}

/// Per-worktree indicator: precedence waiting → thinking → idle.
#[derive(Debug, Clone, Copy, PartialEq, Eq, Structural)]
pub enum AgentState {
    Idle,
    /// Something is producing output.
    Thinking,
    /// A bell is pending: the shell wants the user.
    Waiting,
}

/// A title starts with a braille pattern glyph (U+2800..=U+28FF), the
/// spinner that busy TUIs put there.
pub open spec fn spec_title_is_thinking(title: Seq<char>) -> bool {
    title.len() > 0 && '\u{2800}' <= title[0] && title[0] <= '\u{28FF}'
}

/// Does the shell's most recent window title look like a "thinking" cue?
pub fn title_is_thinking(title: &str) -> (b: bool)
    ensures
        b == spec_title_is_thinking(title@),
{
    let chars = crate::text::chars_of(title);
    if chars.len() == 0 {
        false
    } else {
        let c = chars[0];
        '\u{2800}' <= c && c <= '\u{28FF}'
    }
}

/// One terminal counts as thinking: its title is a spinner, or it has no
/// title and produced output within `fallback_ms` before `now`.
pub open spec fn spec_terminal_thinking(a: TerminalActivity, now: u64, fallback_ms: u64) -> bool {
    spec_title_is_thinking(a.title@) || (a.title@.len() == 0 && match a.last_output_at {
        Some(t) => (if now >= t { now - t } else { 0 }) <= fallback_ms,
        None => false,
    })
}

pub open spec fn spec_agent_state(acts: Seq<TerminalActivity>, now: u64, fallback_ms: u64) -> AgentState {
    if exists|i: int| 0 <= i < acts.len() && (#[trigger] acts[i]).bell_pending {
        AgentState::Waiting
    } else if exists|i: int| 0 <= i < acts.len() && spec_terminal_thinking(#[trigger] acts[i], now, fallback_ms) {
        AgentState::Thinking
    } else {
        AgentState::Idle
    }
}

/// The worktree's indicator from the snapshots of all its terminals, at
/// time `now` (milliseconds since the Unix epoch).
pub fn aggregate_agent_state(acts: &Vec<TerminalActivity>, now: u64, fallback_ms: u64) -> (s: AgentState)
    ensures
        s == spec_agent_state(acts@, now, fallback_ms),
{
    let mut bell = false;
    let mut thinking = false;
    let mut i: usize = 0;
    while i < acts.len()
        invariant
            i <= acts@.len(),
            bell <==> exists|j: int| 0 <= j < i && (#[trigger] acts@[j]).bell_pending,
            thinking <==> exists|j: int| 0 <= j < i && spec_terminal_thinking(#[trigger] acts@[j], now, fallback_ms),
        decreases acts@.len() - i,
    {
        let a = &acts[i];
        if a.bell_pending {
            bell = true;
        }
        if title_is_thinking(a.title.as_str()) {
            thinking = true;
        } else if a.title.as_str().is_empty() {
            proof {
                assert(a.title@.len() == 0);
            }
            match a.last_output_at {
                Some(t) => {
                    let age = if now >= t { now - t } else { 0 };
                    if age <= fallback_ms {
                        thinking = true;
                    }
                },
                None => {},
            }
        } else {
            proof {
                assert(a.title@.len() != 0);
            }
        }
        proof {
            if a.bell_pending {
                assert(acts@[i as int].bell_pending);
            }
            if spec_terminal_thinking(acts@[i as int], now, fallback_ms) {
                assert(thinking);
            }
        }
        i += 1;
    }
    if bell {
        AgentState::Waiting
    } else if thinking {
        AgentState::Thinking
    } else {
        AgentState::Idle
    }
}

/// Offset that "scroll to top" jumps to; the renderer clamps it to the
/// history it has.
pub const SCROLL_HOME_OFFSET: usize = 10_000;

/// The terminal tabs of one worktree.  `T` is the terminal handle the
/// binary keeps (a PTY with its parser).
pub struct WorktreeTerminals<T> {
    pub list: Vec<T>,
    pub active: usize,
    pub mode: TerminalMode,
    pub scroll_offset: usize,
}

pub open spec fn next_tab_post<T>(a: WorktreeTerminals<T>, b: WorktreeTerminals<T>) -> bool {
    &&& b.list@ == a.list@
    &&& b.mode == a.mode
    &&& b.scroll_offset == a.scroll_offset
    &&& b.active == if a.list@.len() == 0 {
        a.active as int
    } else {
        (a.active + 1) % (a.list@.len() as int)
    }
}

pub open spec fn prev_tab_post<T>(a: WorktreeTerminals<T>, b: WorktreeTerminals<T>) -> bool {
    &&& b.list@ == a.list@
    &&& b.mode == a.mode
    &&& b.scroll_offset == a.scroll_offset
    &&& b.active == if a.list@.len() == 0 {
        a.active
    } else if a.active == 0 {
        (a.list@.len() - 1) as usize
    } else {
        (a.active - 1) as usize
    }
}

pub open spec fn toggle_scrollback_post<T>(a: WorktreeTerminals<T>, b: WorktreeTerminals<T>) -> bool {
    &&& b.list@ == a.list@
    &&& b.active == a.active
    &&& a.mode == TerminalMode::Insert ==> b.mode == TerminalMode::Scrollback && b.scroll_offset == a.scroll_offset
    &&& a.mode == TerminalMode::Scrollback ==> b.mode == TerminalMode::Insert && b.scroll_offset == 0
}

/// The offset moved by `delta`, stopping at the bottom.
pub open spec fn scroll_post<T>(a: WorktreeTerminals<T>, b: WorktreeTerminals<T>, delta: int) -> bool {
    &&& b.list@ == a.list@
    &&& b.active == a.active
    &&& b.mode == a.mode
    &&& b.scroll_offset == if a.scroll_offset + delta < 0 {
        0
    } else {
        a.scroll_offset + delta
    }
}

pub open spec fn only_offset_set<T>(a: WorktreeTerminals<T>, b: WorktreeTerminals<T>, offset: usize) -> bool {
    &&& b.list@ == a.list@
    &&& b.active == a.active
    &&& b.mode == a.mode
    &&& b.scroll_offset == offset
}

/// Closing the active tab: nothing happens when there is no tab (the
/// answer is "last") or `active` is out of range (the answer is "not
/// last"); otherwise the tab goes, the answer says whether none is left,
/// and when some are left the active one is the next (or the new last)
/// in insert mode at the bottom.
pub open spec fn close_active_post<T>(a: WorktreeTerminals<T>, b: WorktreeTerminals<T>, last: bool) -> bool {
    if a.list@.len() == 0 {
        last && b == a
    } else if a.active >= a.list@.len() {
        !last && b == a
    } else {
        &&& b.list@ == a.list@.remove(a.active as int)
        &&& last == (b.list@.len() == 0)
        &&& !last ==> {
            &&& b.active == if a.active < b.list@.len() {
                a.active
            } else {
                (b.list@.len() - 1) as usize
            }
            &&& b.mode == TerminalMode::Insert
            &&& b.scroll_offset == 0
        }
        &&& last ==> b.active == a.active && b.mode == a.mode && b.scroll_offset == a.scroll_offset
    }
}

impl<T> WorktreeTerminals<T> {
    /// One tab, active, in insert mode at the bottom of its history.
    pub fn new(term: T) -> (ts: Self)
        ensures
            ts.list@ == seq![term],
            ts.active == 0,
            ts.mode == TerminalMode::Insert,
            ts.scroll_offset == 0,
    {
        let mut list = Vec::new();
        list.push(term);
        WorktreeTerminals { list, active: 0, mode: TerminalMode::Insert, scroll_offset: 0 }
    }

    /// The active tab, if `active` is in range.
    pub fn active_ref(&self) -> (r: Option<&T>)
        ensures
            r.is_some() == (self.active < self.list@.len()),
            r.is_some() ==> *r.unwrap() == self.list@[self.active as int],
    {
        if self.active < self.list.len() {
            Some(&self.list[self.active])
        } else {
            None
        }
    }

    /// Add a tab and make it the active one, in insert mode at the bottom.
    pub fn push(&mut self, term: T)
        requires
            old(self).list@.len() < usize::MAX,
        ensures
            final(self).list@ == old(self).list@.push(term),
            final(self).active == old(self).list@.len(),
            final(self).mode == TerminalMode::Insert,
            final(self).scroll_offset == 0,
    {
        self.list.push(term);
        self.active = self.list.len() - 1;
        self.mode = TerminalMode::Insert;
        self.scroll_offset = 0;
    }

    /// Close the active tab; `true` when no tab is left (or none was), and
    /// the worktree's entry should go.
    pub fn close_active(&mut self) -> (last: bool)
        ensures
            close_active_post(*old(self), *final(self), last),
    {
        if self.list.len() == 0 {
            return true;
        }
        if self.active >= self.list.len() {
            // Nothing to close at that position; `Vec::remove` would panic.
            return false;
        }
        self.list.remove(self.active);
        if self.list.len() == 0 {
            return true;
        }
        if self.active >= self.list.len() {
            self.active = self.list.len() - 1;
        }
        self.mode = TerminalMode::Insert;
        self.scroll_offset = 0;
        false
    }

    /// Next tab, wrapping to the first.
    pub fn next_tab(&mut self)
        ensures
            next_tab_post(*old(self), *final(self)),
    {
        if self.list.len() == 0 {
            return;
        }
        if self.active < self.list.len() {
            self.active = (self.active + 1) % self.list.len();
        } else {
            // `active + 1` may not fit; reduce first, which gives the same
            // remainder.
            let n = self.list.len();
            let a = self.active % n;
            proof {
                vstd::arithmetic::div_mod::lemma_add_mod_noop(self.active as int, 1, n as int);
                vstd::arithmetic::div_mod::lemma_add_mod_noop_right(a as int, 1, n as int);
                if a + 1 == n {
                    vstd::arithmetic::div_mod::lemma_mod_self_0(n as int);
                } else {
                    vstd::arithmetic::div_mod::lemma_small_mod((a + 1) as nat, n as nat);
                }
            }
            if a + 1 == n {
                self.active = 0;
            } else {
                self.active = a + 1;
            }
        }
    }

    /// Previous tab, wrapping to the last.
    pub fn prev_tab(&mut self)
        ensures
            prev_tab_post(*old(self), *final(self)),
    {
        if self.list.len() == 0 {
            return;
        }
        self.active = if self.active == 0 {
            self.list.len() - 1
        } else {
            self.active - 1
        };
    }

    /// Switch between insert and scrollback; leaving scrollback returns
    /// to the bottom.
    pub fn toggle_scrollback(&mut self)
        ensures
            toggle_scrollback_post(*old(self), *final(self)),
    {
        match self.mode {
            TerminalMode::Insert => {
                self.mode = TerminalMode::Scrollback;
            },
            TerminalMode::Scrollback => {
                self.scroll_offset = 0;
                self.mode = TerminalMode::Insert;
            },
        }
    }

    /// Move the scrollback offset by `delta` lines (positive is up),
    /// stopping at the bottom.
    pub fn scroll(&mut self, delta: i32)
        requires
            old(self).scroll_offset + delta <= i32::MAX,
        ensures
            scroll_post(*old(self), *final(self), delta as int),
    {
        if delta < 0 {
            let down: usize = if delta == i32::MIN {
                2147483648usize
            } else {
                (-delta) as usize
            };
            if self.scroll_offset <= down {
                self.scroll_offset = 0;
            } else {
                self.scroll_offset = self.scroll_offset - down;
            }
        } else {
            self.scroll_offset = self.scroll_offset + (delta as usize);
        }
    }

    /// Jump to the top of the history.
    pub fn scroll_home(&mut self)
        ensures
            only_offset_set(*old(self), *final(self), SCROLL_HOME_OFFSET),
    {
        self.scroll_offset = SCROLL_HOME_OFFSET;
    }

    /// Back to the bottom.
    pub fn scroll_end(&mut self)
        ensures
            only_offset_set(*old(self), *final(self), 0),
    {
        self.scroll_offset = 0;
    }
}

} // verus!
