//! What the keys do inside the dialogs: text editing, list cursors,
//! completions, the log and help viewers.

use vstd::prelude::*;

use crate::app::{AppState, Effect, FocusZone, SidebarCursor, frame};
use crate::modals::{AddRepoModal, LogModal, Modal, matching_indices};
use crate::text::lowercase_of;
use crate::text_input::{TextInput, max_input_chars};

verus! {

/// An edit of the focused text input.
#[derive(Debug, Clone, Copy, PartialEq, Eq, Structural)]
pub enum InputOp {
    Char(char),
    Backspace,
    Delete,
    Left,
    Right,
    Home,
    End,
}

/// What `op` does to an input `(text, cursor)`.  A character is not
/// inserted into an input already holding `max_input_chars()`.
pub open spec fn input_post(op: InputOp, a: (Seq<char>, nat), b: (Seq<char>, nat)) -> bool {
    match op {
        InputOp::Char(c) => if a.0.len() < max_input_chars() {
            b.0 == a.0.insert(a.1 as int, c) && b.1 == a.1 + 1
        } else {
            b == a
        },
        InputOp::Backspace => if a.1 == 0 {
            b == a
        } else {
            b.0 == a.0.remove(a.1 - 1) && b.1 == a.1 - 1
        },
        InputOp::Delete => if a.1 >= a.0.len() {
            b == a
        } else {
            b.0 == a.0.remove(a.1 as int) && b.1 == a.1
        },
        InputOp::Left => b.0 == a.0 && b.1 == if a.1 == 0 {
            0
        } else {
            (a.1 - 1) as nat
        },
        InputOp::Right => b.0 == a.0 && b.1 == if a.1 >= a.0.len() {
            a.1
        } else {
            a.1 + 1
        },
        InputOp::Home => b == (a.0, 0nat),
        InputOp::End => b == (a.0, a.0.len()),
    }
}

/// Apply `op` to `input`.
pub fn edit_input(input: &mut TextInput, op: InputOp)
    ensures
        input_post(op, old(input)@, final(input)@),
{
    match op {
        InputOp::Char(c) => {
            if input.char_count() < usize::MAX / 4 {
                input.insert_char(c);
            }
        },
        InputOp::Backspace => input.backspace(),
        InputOp::Delete => input.delete(),
        InputOp::Left => input.move_left(),
        InputOp::Right => input.move_right(),
        InputOp::Home => input.home(),
        InputOp::End => input.end(),
    }
}

/// Only the dialog changed.
pub open spec fn only_modal_changed<T>(pre: AppState<T>, post: AppState<T>) -> bool {
    &&& post.ui.expanded == pre.ui.expanded
    &&& post.ui.cursor == pre.ui.cursor
    &&& post.ui.focus == pre.ui.focus
    &&& post.ui.help_scroll == pre.ui.help_scroll
    &&& frame(pre, post, false, true, false, false, false)
}

/// Where a list cursor lands after moving by `delta` within `0..=last`.
pub open spec fn clamped(cur: int, delta: int, last: int) -> int {
    let want = cur + delta;
    if want < 0 {
        0
    } else if want > last {
        last
    } else {
        want
    }
}

/// Move `cur` by one step (up when `up`) within `0..=last`.
fn step_clamped(cur: usize, up: bool, last: usize) -> (r: usize)
    ensures
        r == clamped(cur as int, if up { -1 } else { 1 }, last as int),
{
    if up {
        if cur == 0 {
            0
        } else if cur - 1 > last {
            last
        } else {
            cur - 1
        }
    } else if cur >= last {
        last
    } else {
        cur + 1
    }
}

/// The text up to and including its last `/`; empty when it has none.
pub open spec fn dir_prefix(s: Seq<char>) -> Seq<char> {
    match crate::git::last_pos(s, '/') {
        Some(p) => s.subrange(0, p + 1),
        None => Seq::empty(),
    }
}

pub open spec fn apply_input_post<T>(pre: AppState<T>, post: AppState<T>, op: InputOp, eff: Option<Effect>) -> bool {
    &&& (match pre.ui.modal {
            Some(Modal::AddRepo(m)) => {
                &&& post.ui.modal matches Some(Modal::AddRepo(m2))
                &&& input_post(op, m.input@, m2.input@)
                &&& m2.error.is_none()
                &&& m2.completions == m.completions
                &&& m2.completion_cursor == m.completion_cursor
                &&& eff matches Some(Effect::ListCompletions(prefix))
                &&& prefix@ == m2.input@.0
                &&& only_modal_changed(pre, post)
            },
            Some(Modal::NewWorktree(m)) => {
                &&& post.ui.modal matches Some(Modal::NewWorktree(m2))
                &&& input_post(op, m.input@, m2.input@)
                &&& m2.error.is_none()
                &&& m2.repo_idx == m.repo_idx
                &&& m2.branches@ == m.branches@
                &&& m2.filter_matches@ == matching_indices(m.branches@, lowercase_of(m2.input@.0), m.branches@.len())
                &&& m2.cursor == 0
                &&& eff.is_none()
                &&& only_modal_changed(pre, post)
            },
            _ => post == pre && eff.is_none(),
        })
}

pub open spec fn branch_cursor_post<T>(pre: AppState<T>, post: AppState<T>, up: bool) -> bool {
    &&& (match pre.ui.modal {
            Some(Modal::NewWorktree(m)) => {
                &&& post.ui.modal matches Some(Modal::NewWorktree(m2))
                &&& m2.cursor == if up {
                    if m.cursor == 0 {
                        0
                    } else {
                        m.cursor - 1
                    }
                } else if m.cursor + 1 < m.filter_matches@.len() {
                    m.cursor + 1
                } else {
                    m.filter_matches@.len() as int
                }
                &&& m2.repo_idx == m.repo_idx
                &&& m2.input == m.input
                &&& m2.error == m.error
                &&& m2.branches == m.branches
                &&& m2.filter_matches == m.filter_matches
                &&& only_modal_changed(pre, post)
            },
            _ => post == pre,
        })
}

pub open spec fn completion_cursor_post<T>(pre: AppState<T>, post: AppState<T>, up: bool) -> bool {
    &&& (match pre.ui.modal {
            Some(Modal::AddRepo(m)) => if m.completions@.len() == 0 {
                post == pre
            } else {
                &&& post.ui.modal matches Some(Modal::AddRepo(m2))
                &&& m2.completion_cursor == Some(
                    match m.completion_cursor {
                        None => 0usize,
                        Some(n) => if up {
                            if n == 0 {
                                0usize
                            } else {
                                (n - 1) as usize
                            }
                        } else if n + 1 < m.completions@.len() {
                            (n + 1) as usize
                        } else {
                            (m.completions@.len() - 1) as usize
                        },
                    },
                )
                &&& m2.input == m.input
                &&& m2.error == m.error
                &&& m2.completions == m.completions
                &&& only_modal_changed(pre, post)
            },
            _ => post == pre,
        })
}

pub open spec fn accept_completion_post<T>(pre: AppState<T>, post: AppState<T>, eff: Option<Effect>) -> bool {
    &&& (match pre.ui.modal {
            Some(Modal::AddRepo(m)) => match m.completion_cursor {
                Some(c) => if c < m.completions@.len() && (dir_prefix(m.input@.0) + m.completions@[c as int]@).len()
                    < max_input_chars() {
                    let v = dir_prefix(m.input@.0) + m.completions@[c as int]@ + seq!['/'];
                    &&& post.ui.modal matches Some(Modal::AddRepo(m2))
                    &&& m2.input@ == (v, v.len())
                    &&& m2.completion_cursor.is_none()
                    &&& m2.error.is_none()
                    &&& m2.completions == m.completions
                    &&& eff matches Some(Effect::ListCompletions(prefix))
                    &&& prefix@ == v
                    &&& only_modal_changed(pre, post)
                } else {
                    post == pre && eff.is_none()
                },
                None => post == pre && eff.is_none(),
            },
            _ => post == pre && eff.is_none(),
        })
}

pub open spec fn scroll_log_post<T>(pre: AppState<T>, post: AppState<T>, delta: i32) -> bool {
    &&& (match pre.ui.modal {
            Some(Modal::ViewLog(l)) => {
                let max = if l.lines@.len() == 0 {
                    0
                } else {
                    l.lines@.len() - 1
                };
                &&& post.ui.modal matches Some(Modal::ViewLog(l2))
                &&& l2.scroll == if delta == i32::MIN {
                    0
                } else if delta == i32::MAX {
                    max
                } else {
                    clamped(l.scroll as int, delta as int, max)
                }
                &&& l2.lines == l.lines
                &&& l2.source == l.source
                &&& only_modal_changed(pre, post)
            },
            _ => post == pre,
        })
}

pub open spec fn toggle_discovered_post<T>(pre: AppState<T>, post: AppState<T>) -> bool {
    &&& (match pre.ui.modal {
            Some(Modal::DiscoveredRepos(m)) => if m.cursor < m.candidates@.len() {
                &&& post.ui.modal matches Some(Modal::DiscoveredRepos(m2))
                &&& m2.candidates@.len() == m.candidates@.len()
                &&& forall|i: int| 0 <= i < m.candidates@.len() && i != m.cursor ==> #[trigger] m2.candidates@[i] == m.candidates@[i]
                &&& m2.candidates@[m.cursor as int].selected == !m.candidates@[m.cursor as int].selected
                &&& m2.candidates@[m.cursor as int].path == m.candidates@[m.cursor as int].path
                &&& m2.candidates@[m.cursor as int].name == m.candidates@[m.cursor as int].name
                &&& m2.candidates@[m.cursor as int].already_configured == m.candidates@[m.cursor as int].already_configured
                &&& m2.scan_root == m.scan_root
                &&& m2.scanning == m.scanning
                &&& m2.cursor == m.cursor
                &&& m2.error == m.error
                &&& only_modal_changed(pre, post)
            } else {
                post == pre
            },
            _ => post == pre,
        })
}

pub open spec fn discovered_cursor_post<T>(pre: AppState<T>, post: AppState<T>, up: bool) -> bool {
    &&& (match pre.ui.modal {
            Some(Modal::DiscoveredRepos(m)) => if m.candidates@.len() == 0 {
                post == pre
            } else {
                &&& post.ui.modal matches Some(Modal::DiscoveredRepos(m2))
                &&& m2.cursor == clamped(m.cursor as int, if up { -1 } else { 1 }, m.candidates@.len() - 1)
                &&& m2.candidates == m.candidates
                &&& m2.scan_root == m.scan_root
                &&& m2.scanning == m.scanning
                &&& m2.error == m.error
                &&& only_modal_changed(pre, post)
            },
            _ => post == pre,
        })
}

pub open spec fn toggle_help_post<T>(pre: AppState<T>, post: AppState<T>) -> bool {
    &&& (match pre.ui.modal {
            None => {
                &&& post.ui.modal == Some(Modal::Help)
                &&& post.ui.help_scroll == 0
                &&& post.ui.expanded == pre.ui.expanded
                &&& post.ui.cursor == pre.ui.cursor
                &&& post.ui.focus == pre.ui.focus
                &&& frame(pre, post, false, true, false, false, false)
            },
            Some(Modal::Help) => post.ui.modal.is_none() && only_modal_changed(pre, post),
            _ => post == pre,
        })
}

pub open spec fn scroll_help_post<T>(pre: AppState<T>, post: AppState<T>, up: bool) -> bool {
    &&& (post.ui.help_scroll == if up {
            if pre.ui.help_scroll == 0 {
                0
            } else {
                pre.ui.help_scroll - 1
            }
        } else if pre.ui.help_scroll == u16::MAX {
            u16::MAX as int
        } else {
            pre.ui.help_scroll + 1
        })
    &&& (post.ui.expanded == pre.ui.expanded)
    &&& (post.ui.cursor == pre.ui.cursor)
    &&& (post.ui.focus == pre.ui.focus)
    &&& (post.ui.modal == pre.ui.modal)
    &&& (frame(pre, post, false, true, false, false, false))
}

pub open spec fn open_add_repo_post<T>(pre: AppState<T>, post: AppState<T>) -> bool {
    &&& (pre.ui.modal.is_some() ==> post == pre)
    &&& (pre.ui.modal.is_none() ==> {
            &&& post.ui.modal matches Some(Modal::AddRepo(m))
            &&& m.input@ == (Seq::<char>::empty(), 0nat)
            &&& m.error.is_none()
            &&& m.completions@.len() == 0
            &&& m.completion_cursor.is_none()
            &&& only_modal_changed(pre, post)
        })
}

pub open spec fn open_confirm_remove_repo_post<T>(pre: AppState<T>, post: AppState<T>) -> bool {
    &&& (({
            let target = match pre.ui.cursor {
                Some(SidebarCursor::Repo(i)) => Some(i),
                Some(SidebarCursor::Worktree { repo, .. }) => Some(repo),
                None => None::<usize>,
            };
            if pre.ui.modal.is_none() && target.is_some() && target.unwrap() < pre.repos@.len() {
                &&& post.ui.modal == Some(Modal::ConfirmRemoveRepo { repo_idx: target.unwrap() })
                &&& only_modal_changed(pre, post)
            } else {
                post == pre
            }
        }))
}

pub open spec fn cycle_focus_post<T>(pre: AppState<T>, post: AppState<T>) -> bool {
    &&& (post.ui.focus == match pre.ui.focus {
            FocusZone::Sidebar => FocusZone::Main,
            FocusZone::Main => FocusZone::Sidebar,
        })
    &&& (post.ui.expanded == pre.ui.expanded)
    &&& (post.ui.cursor == pre.ui.cursor)
    &&& (post.ui.modal == pre.ui.modal)
    &&& (post.ui.help_scroll == pre.ui.help_scroll)
    &&& (frame(pre, post, false, true, false, false, false))
}

impl<T> AppState<T> {
    /// Edit the input of the open add-repository or new-worktree dialog.
    /// Editing the path asks for fresh completions (the effect); editing
    /// the branch filter re-filters the branch list.
    pub fn apply_input(&mut self, op: InputOp) -> (eff: Option<Effect>)
        ensures
            apply_input_post(*old(self), *final(self), op, eff),
    {
        match &mut self.ui.modal {
            Some(Modal::AddRepo(m)) => {
                edit_input(&mut m.input, op);
                m.error = None;
                Some(Effect::ListCompletions(m.input.value()))
            },
            Some(Modal::NewWorktree(m)) => {
                edit_input(&mut m.input, op);
                m.error = None;
                m.recompute_filter();
                None
            },
            _ => None,
        }
    }

    /// Directory completions for the add-repository path arrived.
    pub fn set_completions(&mut self, comps: Vec<String>)
        ensures
            match old(self).ui.modal {
                Some(Modal::AddRepo(m)) => {
                    &&& final(self).ui.modal matches Some(Modal::AddRepo(m2))
                    &&& m2.input == m.input
                    &&& m2.error == m.error
                    &&& m2.completions@ == comps@
                    &&& m2.completion_cursor.is_none()
                    &&& only_modal_changed(*old(self), *final(self))
                },
                _ => *final(self) == *old(self),
            },
    {
        if let Some(Modal::AddRepo(m)) = &mut self.ui.modal {
            m.completions = comps;
            m.completion_cursor = None;
        }
    }

    /// Move the branch cursor of the new-worktree dialog up or down within
    /// its rows.
    pub fn move_branch_cursor(&mut self, up: bool)
        ensures
            branch_cursor_post(*old(self), *final(self), up),
    {
        if let Some(Modal::NewWorktree(m)) = &mut self.ui.modal {
            if up {
                if m.cursor > 0 {
                    m.cursor = m.cursor - 1;
                }
            } else {
                // The last row is `filter_matches.len()` (row 0 is "create").
                let last = m.filter_matches.len();
                m.cursor = if m.cursor < last {
                    m.cursor + 1
                } else {
                    last
                };
            }
        }
    }

    /// Move the completion cursor of the add-repository dialog; the first
    /// move from no selection lands on the top entry.
    pub fn move_completion_cursor(&mut self, up: bool)
        ensures
            completion_cursor_post(*old(self), *final(self), up),
    {
        if let Some(Modal::AddRepo(m)) = &mut self.ui.modal {
            if m.completions.len() > 0 {
                let max = m.completions.len() - 1;
                let next = match m.completion_cursor {
                    None => 0,
                    Some(n) => if up {
                        if n == 0 {
                            0
                        } else {
                            n - 1
                        }
                    } else if n < max {
                        n + 1
                    } else {
                        max
                    },
                };
                m.completion_cursor = Some(next);
            }
        }
    }

    /// Take the selected completion: the path becomes its directory part
    /// followed by the completion and a `/`, with the cursor at the end,
    /// and completions of the new path are asked for.
    pub fn accept_completion(&mut self) -> (eff: Option<Effect>)
        ensures
            accept_completion_post(*old(self), *final(self), eff),
    {
        if let Some(Modal::AddRepo(m)) = &mut self.ui.modal {
            if let Some(c) = m.completion_cursor {
                if c < m.completions.len() {
                    let current = crate::text::chars_of(m.input.value().as_str());
                    let n = current.len();
                    let ghost text = m.input@.0;
                    let ghost comp = m.completions@[c as int]@;
                    let mut value = match crate::git::rfind_char(&current, '/') {
                        Some(pos) => {
                            proof {
                                let k = choose|i: int|
                                    0 <= i < current@.len() && current@[i] == '/' && forall|j: int|
                                        i < j < current@.len() ==> current@[j] != '/';
                                assert(k == pos);
                            }
                            crate::text::string_from_chars(&current, 0, pos + 1)
                        },
                        None => {
                            let e = String::new();
                            assert(e@ =~= Seq::<char>::empty());
                            e
                        },
                    };
                    assert(value@ == dir_prefix(text));
                    value.append(m.completions[c].as_str());
                    if value.as_str().unicode_len() < usize::MAX / 4 {
                        crate::text::push_char(&mut value, '/');
                        assert(value@ =~= dir_prefix(text) + comp + seq!['/']);
                        m.input = TextInput::from_text(value.as_str());
                        m.completion_cursor = None;
                        m.error = None;
                        return Some(Effect::ListCompletions(value));
                    }
                }
            }
        }
        None
    }

    /// Open the log viewer on `lines`, scrolled to the last line.
    pub fn open_log_viewer_with(&mut self, lines: Vec<String>, source: Option<String>)
        ensures
            old(self).ui.modal.is_some() ==> *final(self) == *old(self),
            old(self).ui.modal.is_none() ==> {
                &&& final(self).ui.modal matches Some(Modal::ViewLog(l))
                &&& l.lines@ == lines@
                &&& l.scroll == if lines@.len() == 0 {
                    0
                } else {
                    lines@.len() - 1
                }
                &&& l.source == source
                &&& only_modal_changed(*old(self), *final(self))
            },
    {
        if self.ui.modal.is_some() {
            return;
        }
        let scroll = if lines.len() == 0 {
            0
        } else {
            lines.len() - 1
        };
        self.ui.modal = Some(Modal::ViewLog(LogModal { lines, scroll, source }));
    }

    /// Scroll the log viewer: `i32::MIN` jumps to the top, `i32::MAX` to
    /// the bottom, anything else moves by that many lines within the log.
    pub fn scroll_log(&mut self, delta: i32)
        ensures
            scroll_log_post(*old(self), *final(self), delta),
    {
        if let Some(Modal::ViewLog(m)) = &mut self.ui.modal {
            let max = if m.lines.len() == 0 {
                0
            } else {
                m.lines.len() - 1
            };
            m.scroll = if delta == i32::MIN {
                0
            } else if delta == i32::MAX {
                max
            } else if delta < 0 {
                let d: usize = (-(delta as i64)) as usize;
                if m.scroll <= d {
                    0
                } else if m.scroll - d > max {
                    max
                } else {
                    m.scroll - d
                }
            } else {
                let d: usize = delta as usize;
                if m.scroll >= max || max - m.scroll <= d {
                    max
                } else {
                    m.scroll + d
                }
            };
        }
    }

    /// Flip the selection of the found repository under the cursor.
    pub fn toggle_discovered_selection(&mut self)
        ensures
            toggle_discovered_post(*old(self), *final(self)),
    {
        if let Some(Modal::DiscoveredRepos(m)) = &mut self.ui.modal {
            if m.cursor < m.candidates.len() {
                let c = m.cursor;
                let flipped = !m.candidates[c].selected;
                m.candidates[c].selected = flipped;
            }
        }
    }

    /// Move the cursor over the found repositories (up when `up`).
    pub fn move_discovered_cursor(&mut self, up: bool)
        ensures
            discovered_cursor_post(*old(self), *final(self), up),
    {
        if let Some(Modal::DiscoveredRepos(m)) = &mut self.ui.modal {
            if m.candidates.len() > 0 {
                m.cursor = step_clamped(m.cursor, up, m.candidates.len() - 1);
            }
        }
    }

    /// Open the help when no dialog is open, close it when it is the one
    /// open; other dialogs stay.
    pub fn toggle_help(&mut self)
        ensures
            toggle_help_post(*old(self), *final(self)),
    {
        match self.ui.modal {
            None => {
                self.ui.help_scroll = 0;
                self.ui.modal = Some(Modal::Help);
            },
            Some(Modal::Help) => {
                self.ui.modal = None;
            },
            _ => {},
        }
    }

    /// Scroll the help text by one line, within `u16`.
    pub fn scroll_help(&mut self, up: bool)
        ensures
            scroll_help_post(*old(self), *final(self), up),
    {
        if up {
            self.ui.help_scroll = self.ui.help_scroll.saturating_sub(1);
        } else {
            self.ui.help_scroll = self.ui.help_scroll.saturating_add(1);
        }
    }

    /// Open the add-repository dialog, unless a dialog is open.
    pub fn open_add_repo(&mut self)
        ensures
            open_add_repo_post(*old(self), *final(self)),
    {
        if self.ui.modal.is_some() {
            return;
        }
        self.ui.modal = Some(Modal::AddRepo(AddRepoModal::default()));
    }

    /// Ask to remove the repository under the cursor (or the one whose
    /// worktree is under it), unless a dialog is open.
    pub fn open_confirm_remove_repo(&mut self)
        ensures
            open_confirm_remove_repo_post(*old(self), *final(self)),
    {
        if self.ui.modal.is_some() {
            return;
        }
        let repo_idx = match self.ui.cursor {
            Some(SidebarCursor::Repo(i)) => i,
            Some(SidebarCursor::Worktree { repo, .. }) => repo,
            None => return,
        };
        if repo_idx >= self.repos.len() {
            return;
        }
        self.ui.modal = Some(Modal::ConfirmRemoveRepo { repo_idx });
    }

    /// Give the keyboard to the other half of the screen.
    pub fn cycle_focus(&mut self)
        ensures
            cycle_focus_post(*old(self), *final(self)),
    {
        self.ui.focus = match self.ui.focus {
            FocusZone::Sidebar => FocusZone::Main,
            FocusZone::Main => FocusZone::Sidebar,
        };
    }
}

} // verus!
