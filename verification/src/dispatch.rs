//! Messages and the one entry point that applies them.

use vstd::prelude::*;

use crate::app::{
    AppState, Direction, Effect, activate_post, close_terminal_post, collapse_post, diff_cursor_post, diff_focus_post,
    diff_op_post, diff_scroll_post, expand_post, frame, only_cursor_changed, scroll_fits, spec_moved_cursor, spec_visible,
    terminals_op_post, toggle_diff_mode_post, toggle_diff_view_post,
};
use crate::dialogs::{
    InputOp, accept_completion_post, apply_input_post, branch_cursor_post, completion_cursor_post, cycle_focus_post,
    discovered_cursor_post, only_modal_changed, open_add_repo_post, open_confirm_remove_repo_post, scroll_help_post,
    scroll_log_post, toggle_discovered_post, toggle_help_post,
};
use crate::flows::{cycle_theme_post, open_new_worktree_eff, open_remove_worktree_post, resolve_deletion_post, submit_post};
use crate::modals::{DeleteChoice, Modal};
use crate::terminals::{SCROLL_HOME_OFFSET, next_tab_post, only_offset_set, prev_tab_post, scroll_post, toggle_scrollback_post};

verus! {

/// What a key press asks for.
#[derive(Debug)]
pub enum AppMessage {
    MoveCursor(Direction),
    ExpandOrDescend,
    CollapseOrAscend,
    Activate,
    ToggleHelp,
    OpenAddRepo,
    OpenConfirmRemoveRepo,
    OpenNewWorktree,
    OpenConfirmRemoveWorktree,
    InputChar(char),
    InputBackspace,
    InputDelete,
    InputCursorLeft,
    InputCursorRight,
    InputHome,
    InputEnd,
    SubmitModal,
    CloseModal,
    /// Handled by the caller (it starts background work).
    RefreshAll,
    CycleFocus,
    /// Handled by the caller (it spawns a shell).
    NewTerminal,
    CloseTerminal,
    NextTab,
    PrevTab,
    ToggleScrollback,
    ScrollUp,
    ScrollDown,
    ScrollPageUp,
    ScrollPageDown,
    ScrollTop,
    ScrollBottom,
    ToggleDiffView,
    ToggleDiffMode,
    DiffCursorUp,
    DiffCursorDown,
    DiffToggleFocus,
    DiffContentUp,
    DiffContentDown,
    /// Handled by the caller (it runs git).
    StageFocused,
    /// Handled by the caller (it runs git).
    UnstageFocused,
    CycleTheme,
    BranchCursorUp,
    BranchCursorDown,
    CompletionUp,
    CompletionDown,
    CompletionAccept,
    OpenLogViewer,
    LogScrollUp,
    LogScrollDown,
    LogScrollPageUp,
    LogScrollPageDown,
    LogScrollTop,
    LogScrollBottom,
    HelpScrollUp,
    HelpScrollDown,
    /// A directory scan finished with these paths.
    ScanReady(Vec<String>),
    ToggleDiscoveredSelection,
    DiscoveredCursorUp,
    DiscoveredCursorDown,
    /// The pick in the remove-worktree dialog.
    ConfirmWorktreeDeletion(DeleteChoice),
    Quit,
    NoOp,
}

/// The edit a message makes to the focused input, if it is an edit.
pub open spec fn input_op_of(msg: AppMessage) -> Option<InputOp> {
    match msg {
        AppMessage::InputChar(c) => Some(InputOp::Char(c)),
        AppMessage::InputBackspace => Some(InputOp::Backspace),
        AppMessage::InputDelete => Some(InputOp::Delete),
        AppMessage::InputCursorLeft => Some(InputOp::Left),
        AppMessage::InputCursorRight => Some(InputOp::Right),
        AppMessage::InputHome => Some(InputOp::Home),
        AppMessage::InputEnd => Some(InputOp::End),
        _ => None,
    }
}

/// The lines a log-scrolling message moves by (`i32::MIN` / `i32::MAX`
/// for the top / the bottom).
pub open spec fn log_delta(msg: AppMessage) -> Option<i32> {
    match msg {
        AppMessage::LogScrollUp => Some(-1i32),
        AppMessage::LogScrollDown => Some(1i32),
        AppMessage::LogScrollPageUp => Some(-20i32),
        AppMessage::LogScrollPageDown => Some(20i32),
        AppMessage::LogScrollTop => Some(i32::MIN),
        AppMessage::LogScrollBottom => Some(i32::MAX),
        _ => None,
    }
}

/// The lines a terminal-scrolling message moves by.
pub open spec fn terminal_delta(msg: AppMessage) -> Option<int> {
    match msg {
        AppMessage::ScrollUp => Some(1int),
        AppMessage::ScrollDown => Some(-1int),
        AppMessage::ScrollPageUp => Some(20int),
        AppMessage::ScrollPageDown => Some(-20int),
        _ => None,
    }
}

/// `msg` may be applied to `s`: the cursor names an existing repository
/// and a terminal scroll stays within `i32` (the cases where applying it
/// would panic).
pub open spec fn update_allowed<T>(s: AppState<T>, msg: AppMessage) -> bool {
    &&& s.cursor_ok()
    &&& terminal_delta(msg) matches Some(d) ==> scroll_fits(s, d)
}

/// What applying `msg` to `pre` gives: the state `post` and the work
/// `eff` left to the caller.
pub open spec fn update_post<T>(pre: AppState<T>, msg: AppMessage, post: AppState<T>, eff: Option<Effect>) -> bool {
    if input_op_of(msg) is Some {
        apply_input_post(pre, post, input_op_of(msg).unwrap(), eff)
    } else if log_delta(msg) is Some {
        scroll_log_post(pre, post, log_delta(msg).unwrap()) && eff.is_none()
    } else if terminal_delta(msg) is Some {
        terminals_op_post(pre, post, |a, b| scroll_post(a, b, terminal_delta(msg).unwrap())) && eff.is_none()
    } else {
        match msg {
            AppMessage::MoveCursor(dir) => only_cursor_changed(
                pre,
                post,
                spec_moved_cursor(spec_visible(pre.repos@, pre.ui.expanded@), pre.ui.cursor, dir),
            ) && eff.is_none(),
            AppMessage::ExpandOrDescend => expand_post(pre, post) && eff.is_none(),
            AppMessage::CollapseOrAscend => collapse_post(pre, post) && eff.is_none(),
            AppMessage::Activate => activate_post(pre, post, eff),
            AppMessage::ToggleHelp => toggle_help_post(pre, post) && eff.is_none(),
            AppMessage::OpenAddRepo => open_add_repo_post(pre, post) && eff.is_none(),
            AppMessage::OpenConfirmRemoveRepo => open_confirm_remove_repo_post(pre, post) && eff.is_none(),
            AppMessage::OpenNewWorktree => post == pre && open_new_worktree_eff(pre, eff),
            AppMessage::OpenConfirmRemoveWorktree => open_remove_worktree_post(pre, post, eff),
            AppMessage::SubmitModal => submit_post(pre, post, eff),
            AppMessage::CloseModal => post.ui.modal.is_none() && only_modal_changed(pre, post) && eff.is_none(),
            AppMessage::CycleFocus => cycle_focus_post(pre, post) && eff.is_none(),
            AppMessage::CloseTerminal => close_terminal_post(pre, post) && eff.is_none(),
            AppMessage::NextTab => terminals_op_post(pre, post, |a, b| next_tab_post(a, b)) && eff.is_none(),
            AppMessage::PrevTab => terminals_op_post(pre, post, |a, b| prev_tab_post(a, b)) && eff.is_none(),
            AppMessage::ToggleScrollback => terminals_op_post(pre, post, |a, b| toggle_scrollback_post(a, b))
                && eff.is_none(),
            AppMessage::ScrollTop => terminals_op_post(pre, post, |a, b| only_offset_set(a, b, SCROLL_HOME_OFFSET))
                && eff.is_none(),
            AppMessage::ScrollBottom => terminals_op_post(pre, post, |a, b| only_offset_set(a, b, 0)) && eff.is_none(),
            AppMessage::ToggleDiffView => toggle_diff_view_post(pre, post) && eff.is_none(),
            AppMessage::ToggleDiffMode => toggle_diff_mode_post(pre, post) && eff.is_none(),
            AppMessage::DiffCursorUp => diff_op_post(pre, post, |a, b| diff_cursor_post(a, b, -1)) && eff.is_none(),
            AppMessage::DiffCursorDown => diff_op_post(pre, post, |a, b| diff_cursor_post(a, b, 1)) && eff.is_none(),
            AppMessage::DiffToggleFocus => diff_op_post(pre, post, |a, b| diff_focus_post(a, b)) && eff.is_none(),
            AppMessage::DiffContentUp => diff_op_post(pre, post, |a, b| diff_scroll_post(a, b, false)) && eff.is_none(),
            AppMessage::DiffContentDown => diff_op_post(pre, post, |a, b| diff_scroll_post(a, b, true)) && eff.is_none(),
            AppMessage::CycleTheme => eff matches Some(e) && cycle_theme_post(pre, post, e),
            AppMessage::BranchCursorUp => branch_cursor_post(pre, post, true) && eff.is_none(),
            AppMessage::BranchCursorDown => branch_cursor_post(pre, post, false) && eff.is_none(),
            AppMessage::CompletionUp => completion_cursor_post(pre, post, true) && eff.is_none(),
            AppMessage::CompletionDown => completion_cursor_post(pre, post, false) && eff.is_none(),
            AppMessage::CompletionAccept => accept_completion_post(pre, post, eff),
            AppMessage::OpenLogViewer => post == pre && if pre.ui.modal.is_none() {
                eff matches Some(Effect::ReadLog)
            } else {
                eff.is_none()
            },
            AppMessage::HelpScrollUp => scroll_help_post(pre, post, true) && eff.is_none(),
            AppMessage::HelpScrollDown => scroll_help_post(pre, post, false) && eff.is_none(),
            AppMessage::ScanReady(paths) => post == pre && if pre.ui.modal matches Some(Modal::DiscoveredRepos(_)) {
                eff matches Some(Effect::ResolveScan(p)) && p == paths
            } else {
                eff.is_none()
            },
            AppMessage::ToggleDiscoveredSelection => toggle_discovered_post(pre, post) && eff.is_none(),
            AppMessage::DiscoveredCursorUp => discovered_cursor_post(pre, post, true) && eff.is_none(),
            AppMessage::DiscoveredCursorDown => discovered_cursor_post(pre, post, false) && eff.is_none(),
            AppMessage::ConfirmWorktreeDeletion(choice) => resolve_deletion_post(pre, post, choice, eff),
            AppMessage::Quit => {
                &&& post.should_quit
                &&& post.ui == pre.ui
                &&& post.repos == pre.repos
                &&& post.terminals == pre.terminals
                &&& post.diffs == pre.diffs
                &&& post.main_views == pre.main_views
                &&& post.config == pre.config
                &&& post.config_path == pre.config_path
                &&& post.theme == pre.theme
                &&& post.theme_name == pre.theme_name
                &&& post.activity == pre.activity
                &&& post.github_authenticated == pre.github_authenticated
                &&& post.has_github_repo == pre.has_github_repo
                &&& post.config_error == pre.config_error
                &&& eff.is_none()
            },
            _ => post == pre && eff.is_none(),
        }
    }
}

impl<T> AppState<T> {
    /// Whether `update` may be given `msg` in this state: the cursor names
    /// a listed repository and a terminal scroll stays within `i32`.
    pub fn update_is_allowed(&self, msg: &AppMessage) -> (b: bool)
        ensures
            b == update_allowed(*self, *msg),
    {
        let cursor_ok = match self.ui.cursor {
            Some(crate::app::SidebarCursor::Repo(r)) => r < self.repos.len(),
            Some(crate::app::SidebarCursor::Worktree { repo, .. }) => repo < self.repos.len(),
            None => true,
        };
        let delta: Option<i128> = match msg {
            AppMessage::ScrollUp => Some(1),
            AppMessage::ScrollDown => Some(-1),
            AppMessage::ScrollPageUp => Some(20),
            AppMessage::ScrollPageDown => Some(-20),
            _ => None,
        };
        let scroll_ok = match delta {
            None => true,
            Some(d) => match self.active_worktree_id() {
                Some(id) => match self.terminals.get(id) {
                    Some(ts) => (ts.scroll_offset as i128) + d <= 2147483647i128,
                    None => true,
                },
                None => true,
            },
        };
        cursor_ok && scroll_ok
    }

    /// Apply one message.  What needs the outside world comes back as the
    /// effect for the caller to perform.
    pub fn update(&mut self, msg: AppMessage) -> (eff: Option<Effect>)
        requires
            update_allowed(*old(self), msg),
        ensures
            update_post(*old(self), msg, *final(self), eff),
            final(self).cursor_ok(),
    {
        match msg {
            AppMessage::MoveCursor(dir) => {
                self.move_cursor(dir);
                None
            },
            AppMessage::ExpandOrDescend => {
                self.expand_or_descend();
                None
            },
            AppMessage::CollapseOrAscend => {
                self.collapse_or_ascend();
                None
            },
            AppMessage::Activate => self.activate(),
            AppMessage::ToggleHelp => {
                self.toggle_help();
                None
            },
            AppMessage::OpenAddRepo => {
                self.open_add_repo();
                None
            },
            AppMessage::OpenConfirmRemoveRepo => {
                self.open_confirm_remove_repo();
                None
            },
            AppMessage::OpenNewWorktree => self.open_new_worktree(),
            AppMessage::OpenConfirmRemoveWorktree => self.open_confirm_remove_worktree(),
            AppMessage::InputChar(c) => self.apply_input(InputOp::Char(c)),
            AppMessage::InputBackspace => self.apply_input(InputOp::Backspace),
            AppMessage::InputDelete => self.apply_input(InputOp::Delete),
            AppMessage::InputCursorLeft => self.apply_input(InputOp::Left),
            AppMessage::InputCursorRight => self.apply_input(InputOp::Right),
            AppMessage::InputHome => self.apply_input(InputOp::Home),
            AppMessage::InputEnd => self.apply_input(InputOp::End),
            AppMessage::SubmitModal => self.submit_modal(),
            AppMessage::CloseModal => {
                self.ui.modal = None;
                None
            },
            AppMessage::RefreshAll => None,
            AppMessage::CycleFocus => {
                self.cycle_focus();
                None
            },
            AppMessage::NewTerminal => None,
            AppMessage::CloseTerminal => {
                self.close_active_terminal();
                None
            },
            AppMessage::NextTab => {
                self.next_tab();
                None
            },
            AppMessage::PrevTab => {
                self.prev_tab();
                None
            },
            AppMessage::ToggleScrollback => {
                self.toggle_scrollback();
                None
            },
            AppMessage::ScrollUp => {
                self.scroll_terminal(1);
                None
            },
            AppMessage::ScrollDown => {
                self.scroll_terminal(-1);
                None
            },
            AppMessage::ScrollPageUp => {
                self.scroll_terminal(20);
                None
            },
            AppMessage::ScrollPageDown => {
                self.scroll_terminal(-20);
                None
            },
            AppMessage::ScrollTop => {
                self.scroll_terminal_to(true);
                None
            },
            AppMessage::ScrollBottom => {
                self.scroll_terminal_to(false);
                None
            },
            AppMessage::ToggleDiffView => {
                self.toggle_diff_view();
                None
            },
            AppMessage::ToggleDiffMode => {
                self.toggle_diff_mode();
                None
            },
            AppMessage::DiffCursorUp => {
                self.move_diff_cursor(-1);
                None
            },
            AppMessage::DiffCursorDown => {
                self.move_diff_cursor(1);
                None
            },
            AppMessage::DiffToggleFocus => {
                self.toggle_diff_focus();
                None
            },
            AppMessage::DiffContentUp => {
                self.scroll_diff(false);
                None
            },
            AppMessage::DiffContentDown => {
                self.scroll_diff(true);
                None
            },
            AppMessage::StageFocused => None,
            AppMessage::UnstageFocused => None,
            AppMessage::CycleTheme => Some(self.cycle_theme()),
            AppMessage::BranchCursorUp => {
                self.move_branch_cursor(true);
                None
            },
            AppMessage::BranchCursorDown => {
                self.move_branch_cursor(false);
                None
            },
            AppMessage::CompletionUp => {
                self.move_completion_cursor(true);
                None
            },
            AppMessage::CompletionDown => {
                self.move_completion_cursor(false);
                None
            },
            AppMessage::CompletionAccept => self.accept_completion(),
            AppMessage::OpenLogViewer => {
                if self.ui.modal.is_none() {
                    Some(Effect::ReadLog)
                } else {
                    None
                }
            },
            AppMessage::LogScrollUp => {
                self.scroll_log(-1);
                None
            },
            AppMessage::LogScrollDown => {
                self.scroll_log(1);
                None
            },
            AppMessage::LogScrollPageUp => {
                self.scroll_log(-20);
                None
            },
            AppMessage::LogScrollPageDown => {
                self.scroll_log(20);
                None
            },
            AppMessage::LogScrollTop => {
                self.scroll_log(i32::MIN);
                None
            },
            AppMessage::LogScrollBottom => {
                self.scroll_log(i32::MAX);
                None
            },
            AppMessage::HelpScrollUp => {
                self.scroll_help(true);
                None
            },
            AppMessage::HelpScrollDown => {
                self.scroll_help(false);
                None
            },
            AppMessage::ScanReady(paths) => {
                if let Some(Modal::DiscoveredRepos(_)) = &self.ui.modal {
                    Some(Effect::ResolveScan(paths))
                } else {
                    None
                }
            },
            AppMessage::ToggleDiscoveredSelection => {
                self.toggle_discovered_selection();
                None
            },
            AppMessage::DiscoveredCursorUp => {
                self.move_discovered_cursor(true);
                None
            },
            AppMessage::DiscoveredCursorDown => {
                self.move_discovered_cursor(false);
                None
            },
            AppMessage::ConfirmWorktreeDeletion(choice) => self.resolve_worktree_deletion(choice),
            AppMessage::Quit => {
                self.should_quit = true;
                None
            },
            AppMessage::NoOp => None,
        }
    }
}

} // verus!
