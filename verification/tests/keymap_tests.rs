use grove::app::{AppState, FocusZone, MainView, SidebarCursor};
use grove::dispatch::AppMessage;
use grove::keys::{route_key, Key, KeyChord, KeyContext, KeyPress, KeyRoute, Keymap, Mods};
use grove::modals::{AddRepoModal, DeleteChoice, DeleteVariant, Modal};
use grove::terminals::TerminalMode;

fn press(code: Key, mods: Mods) -> KeyPress {
    KeyPress { code, mods }
}

#[test]
fn parses_plain_char() {
    let c: KeyChord = "q".parse().unwrap();
    assert_eq!(c, KeyChord::plain(Key::Char('q')));
}

#[test]
fn parses_ctrl_modifier() {
    let c: KeyChord = "Ctrl+q".parse().unwrap();
    assert_eq!(c, KeyChord::ctrl('q'));
}

#[test]
fn parses_alt_and_enter() {
    let c: KeyChord = "Alt+Enter".parse().unwrap();
    assert_eq!(c.code, Key::Enter);
    assert!(c.mods.alt);
}

#[test]
fn parses_function_key() {
    let c: KeyChord = "F5".parse().unwrap();
    assert_eq!(c.code, Key::F(5));
}

#[test]
fn rejects_unknown_modifier() {
    assert!("Hyper+q".parse::<KeyChord>().is_err());
}

#[test]
fn roundtrips_through_display() {
    let c = KeyChord::ctrl('a');
    assert_eq!(c.to_display_string(), "Ctrl+a");
    let reparsed: KeyChord = c.to_display_string().parse().unwrap();
    assert_eq!(c, reparsed);
}

#[test]
fn matches_same_modifiers() {
    let c = KeyChord::ctrl('c');
    let key = press(Key::Char('c'), Mods { control: true, ..Mods::none() });
    assert!(c.matches(&key));
}

#[test]
fn matching_ignores_super_but_not_shift() {
    let c = KeyChord::ctrl('c');
    assert!(c.matches(&press(Key::Char('c'), Mods { control: true, super_key: true, ..Mods::none() })));
    assert!(!c.matches(&press(Key::Char('c'), Mods { control: true, shift: true, ..Mods::none() })));
    assert!(!c.matches(&press(Key::Char('x'), Mods { control: true, ..Mods::none() })));
}

#[test]
fn parse_accepts_spaced_words_and_aliases_in_any_case() {
    let c = KeyChord::parse(" control + OPT + shift + tab ").unwrap();
    assert_eq!(c.code, Key::Tab);
    assert!(c.mods.control && c.mods.alt && c.mods.shift);
    assert_eq!(c.to_display_string(), "Ctrl+Alt+Shift+Tab");
    assert_eq!(KeyChord::parse("esc").unwrap().code, Key::Esc);
    assert_eq!(KeyChord::parse("pgdn").unwrap().code, Key::PageDown);
}

#[test]
fn parse_reports_the_bad_word() {
    assert_eq!(KeyChord::parse("Hyper+q").unwrap_err(), "unknown modifier: hyper");
    assert_eq!(KeyChord::parse("Ctrl+nope").unwrap_err(), "unknown key: nope");
    assert_eq!(KeyChord::parse("F13").unwrap().code, Key::F(13));
    assert_eq!(KeyChord::parse("F256").unwrap_err(), "bad function-key spec: F256");
    assert!(KeyChord::parse("").is_err());
}

#[test]
fn display_then_parse_round_trips_for_several_chords() {
    for text in ["q", "Ctrl+a", "Alt+Enter", "F12", "Shift+Up", "Ctrl+Alt+x"] {
        let c = KeyChord::parse(text).unwrap();
        assert_eq!(c.to_display_string(), text);
        assert_eq!(KeyChord::parse(&c.to_display_string()).unwrap(), c);
    }
}

#[test]
fn default_keymap_binds_the_documented_keys() {
    let km = Keymap::default();
    assert_eq!(km.quit, KeyChord::plain(Key::Char('q')));
    assert_eq!(km.help, KeyChord::plain(Key::Char('?')));
    assert_eq!(km.refresh, KeyChord::plain(Key::Char('r')));
    assert_eq!(km.add_repo, KeyChord::plain(Key::Char('a')));
    assert_eq!(km.remove_repo, KeyChord::plain(Key::Char('R')));
    assert_eq!(km.new_worktree, KeyChord::plain(Key::Char('w')));
    assert_eq!(km.remove_worktree, KeyChord::plain(Key::Char('W')));
}

fn ctx(focus: FocusZone, view: MainView, has_terminal: bool, mode: TerminalMode) -> KeyContext {
    KeyContext { focus, view, has_terminal, mode }
}

fn msg(r: KeyRoute) -> AppMessage {
    match r {
        KeyRoute::Message(m) => m,
        KeyRoute::Terminal(k) => panic!("routed to the shell: {k:?}"),
    }
}

fn ctrl(c: char) -> KeyPress {
    press(Key::Char(c), Mods { control: true, ..Mods::none() })
}

#[test]
fn keys_map_to_messages_in_the_sidebar() {
    let none = Mods::none();
    let side = ctx(FocusZone::Sidebar, MainView::Terminal, false, TerminalMode::Insert);
    assert!(matches!(msg(route_key(press(Key::Char('q'), none), true, None, side)), AppMessage::Quit));
    assert!(matches!(msg(route_key(press(Key::Char('j'), none), true, None, side)), AppMessage::MoveCursor(_)));
    assert!(matches!(msg(route_key(press(Key::Char('w'), none), true, None, side)), AppMessage::OpenNewWorktree));
    assert!(matches!(msg(route_key(press(Key::Char('W'), none), true, None, side)), AppMessage::OpenConfirmRemoveWorktree));
    assert!(matches!(msg(route_key(press(Key::F(2), none), true, None, side)), AppMessage::CycleTheme));
    assert!(matches!(msg(route_key(ctrl(' '), true, None, side)), AppMessage::CycleFocus));
    assert!(matches!(msg(route_key(ctrl('c'), true, None, side)), AppMessage::Quit));
    assert!(matches!(msg(route_key(press(Key::Char('q'), none), false, None, side)), AppMessage::NoOp));
}

#[test]
fn keys_in_add_repo_dialog_edit_the_input() {
    let m = Modal::AddRepo(AddRepoModal::default());
    let none = Mods::none();
    let side = ctx(FocusZone::Sidebar, MainView::Terminal, false, TerminalMode::Insert);
    assert!(matches!(msg(route_key(press(Key::Char('q'), none), true, Some(&m), side)), AppMessage::InputChar('q')));
    assert!(matches!(msg(route_key(press(Key::Esc, none), true, Some(&m), side)), AppMessage::CloseModal));
    assert!(matches!(msg(route_key(press(Key::Enter, none), true, Some(&m), side)), AppMessage::SubmitModal));
    assert!(matches!(msg(route_key(press(Key::Tab, none), true, Some(&m), side)), AppMessage::CompletionAccept));
}

#[test]
fn shell_gets_keys_except_tab_keys() {
    let main = ctx(FocusZone::Main, MainView::Terminal, true, TerminalMode::Insert);
    let a = press(Key::Char('a'), Mods::none());
    assert!(matches!(route_key(a, true, None, main), KeyRoute::Terminal(k) if k == a));
    assert!(matches!(route_key(ctrl('c'), true, None, main), KeyRoute::Terminal(_)));
    assert!(matches!(msg(route_key(ctrl('t'), true, None, main)), AppMessage::NewTerminal));
    assert!(matches!(msg(route_key(ctrl('l'), true, None, main)), AppMessage::NextTab));
    assert!(matches!(msg(route_key(ctrl('\\'), true, None, main)), AppMessage::ToggleScrollback));
    assert!(matches!(msg(route_key(ctrl(' '), true, None, main)), AppMessage::CycleFocus));
}

#[test]
fn scrollback_diff_and_empty_pane_keys() {
    let none = Mods::none();
    let sb = ctx(FocusZone::Main, MainView::Terminal, true, TerminalMode::Scrollback);
    assert!(matches!(msg(route_key(press(Key::Char('g'), none), true, None, sb)), AppMessage::ScrollTop));
    assert!(matches!(msg(route_key(press(Key::Esc, none), true, None, sb)), AppMessage::ToggleScrollback));
    let diff = ctx(FocusZone::Main, MainView::Diff, false, TerminalMode::Insert);
    assert!(matches!(msg(route_key(press(Key::Char('s'), none), true, None, diff)), AppMessage::StageFocused));
    assert!(matches!(msg(route_key(press(Key::Tab, none), true, None, diff)), AppMessage::DiffToggleFocus));
    assert!(matches!(msg(route_key(ctrl('d'), true, None, diff)), AppMessage::ToggleDiffView));
    let empty = ctx(FocusZone::Main, MainView::Terminal, false, TerminalMode::Insert);
    assert!(matches!(msg(route_key(press(Key::Enter, none), true, None, empty)), AppMessage::NewTerminal));
}

#[test]
fn dialog_keys_pick_the_dialog_action() {
    let none = Mods::none();
    let side = ctx(FocusZone::Sidebar, MainView::Terminal, false, TerminalMode::Insert);
    let rm = Modal::ConfirmRemoveWorktree { id: (0, 1), variant: DeleteVariant::Unmerged, pr_number: None, error: None };
    assert!(matches!(
        msg(route_key(press(Key::Char('D'), none), true, Some(&rm), side)),
        AppMessage::ConfirmWorktreeDeletion(DeleteChoice::ForceDelete)
    ));
    assert!(matches!(msg(route_key(press(Key::Char('j'), none), true, Some(&Modal::Help), side)), AppMessage::HelpScrollDown));
}

#[test]
fn key_context_follows_the_active_worktree() {
    let mut app: AppState<()> = AppState::fixture();
    let c = app.key_context();
    assert_eq!(c.focus, FocusZone::Sidebar);
    assert_eq!(c.view, MainView::Terminal);
    assert!(!c.has_terminal);
    app.ui.cursor = Some(SidebarCursor::Worktree { repo: 0, worktree: 1 });
    app.update(AppMessage::CycleFocus);
    app.update(AppMessage::ToggleDiffView);
    let c = app.key_context();
    assert_eq!(c.focus, FocusZone::Main);
    assert_eq!(c.view, MainView::Diff);
}
