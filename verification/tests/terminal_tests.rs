use grove::keys::{key_to_pty_bytes, Key, KeyPress, Mods};
use grove::terminals::{aggregate_agent_state, title_is_thinking, AgentState, TerminalActivity, TerminalMode, WorktreeTerminals};

fn key(code: Key) -> KeyPress {
    KeyPress { code, mods: Mods::none() }
}

fn key_with(code: Key, mods: Mods) -> KeyPress {
    KeyPress { code, mods }
}

fn control() -> Mods {
    Mods { control: true, ..Mods::none() }
}

#[test]
fn plain_char_encodes_as_utf8() {
    assert_eq!(key_to_pty_bytes(key(Key::Char('a'))), Some(vec![b'a']));
    assert_eq!(key_to_pty_bytes(key(Key::Char('ñ'))), Some("ñ".as_bytes().to_vec()));
}

#[test]
fn ctrl_c_encodes_as_0x03() {
    let k = key_with(Key::Char('c'), control());
    assert_eq!(key_to_pty_bytes(k), Some(vec![0x03]));
}

#[test]
fn ctrl_d_encodes_as_0x04() {
    let k = key_with(Key::Char('d'), control());
    assert_eq!(key_to_pty_bytes(k), Some(vec![0x04]));
}

#[test]
fn ctrl_space_is_consumed_by_grove() {
    let k = key_with(Key::Char(' '), control());
    assert_eq!(key_to_pty_bytes(k), None);
}

#[test]
fn arrow_keys_use_vt_sequences() {
    assert_eq!(key_to_pty_bytes(key(Key::Up)), Some(b"\x1b[A".to_vec()));
    assert_eq!(key_to_pty_bytes(key(Key::Left)), Some(b"\x1b[D".to_vec()));
}

#[test]
fn enter_backspace_tab_have_classic_bytes() {
    assert_eq!(key_to_pty_bytes(key(Key::Enter)), Some(b"\r".to_vec()));
    assert_eq!(key_to_pty_bytes(key(Key::Backspace)), Some(b"\x7f".to_vec()));
    assert_eq!(key_to_pty_bytes(key(Key::Tab)), Some(b"\t".to_vec()));
}

#[test]
fn shift_enter_emits_lf_for_newline_in_input() {
    let k = key_with(Key::Enter, Mods { shift: true, ..Mods::none() });
    assert_eq!(key_to_pty_bytes(k), Some(b"\n".to_vec()));
}

#[test]
fn alt_prefix_emits_escape() {
    let k = key_with(Key::Char('b'), Mods { alt: true, ..Mods::none() });
    assert_eq!(key_to_pty_bytes(k), Some(vec![0x1b, b'b']));
}

#[test]
fn f_keys_have_standard_sequences() {
    assert_eq!(key_to_pty_bytes(key(Key::F(1))), Some(b"\x1bOP".to_vec()));
    assert_eq!(key_to_pty_bytes(key(Key::F(5))), Some(b"\x1b[15~".to_vec()));
}

#[test]
fn unknown_keys_send_nothing_and_alt_escape_is_not_doubled() {
    assert_eq!(key_to_pty_bytes(key(Key::F(13))), None);
    assert_eq!(key_to_pty_bytes(key(Key::CapsLock)), None);
    let k = key_with(Key::Up, Mods { alt: true, ..Mods::none() });
    assert_eq!(key_to_pty_bytes(k), Some(b"\x1b[A".to_vec()));
    // Ctrl with a non-control character passes the character through.
    assert_eq!(key_to_pty_bytes(key_with(Key::Char('1'), control())), Some(vec![b'1']));
    // Ctrl+[ is ESC.
    assert_eq!(key_to_pty_bytes(key_with(Key::Char('['), control())), Some(vec![0x1b]));
}

#[test]
fn title_thinking_recognises_braille_spinner_glyphs() {
    // Spinner frames an agent CLI shows while streaming.
    assert!(title_is_thinking("⠂ Agent session"));
    assert!(title_is_thinking("⠐ Run ls command in root directory"));
    assert!(title_is_thinking("⡀ anything"));
    // U+28FF is the last code point in the braille block.
    assert!(title_is_thinking("\u{28FF} edge"));
}

#[test]
fn title_thinking_rejects_idle_and_unrelated_glyphs() {
    // `✳` (U+2733) is the static idle prefix of such a CLI.
    assert!(!title_is_thinking("✳ Agent session"));
    assert!(!title_is_thinking("✳ Say hi"));
    // Plain text titles (a normal shell, vim, etc.) are not thinking.
    assert!(!title_is_thinking("~/dev/grove — zsh"));
    assert!(!title_is_thinking(""));
    // U+2800 is the start of braille; U+27FF is one before — must
    // not be treated as a spinner glyph.
    assert!(!title_is_thinking("\u{27FF} not braille"));
}

#[test]
fn worktree_terminals_tab_arithmetic() {
    let mut ts: WorktreeTerminals<()> = WorktreeTerminals {
        list: Vec::new(),
        active: 0,
        mode: TerminalMode::Insert,
        scroll_offset: 0,
    };
    // next/prev on empty → no panic
    ts.next_tab();
    ts.prev_tab();
    ts.toggle_scrollback();
    assert_eq!(ts.mode, TerminalMode::Scrollback);
    ts.scroll(5);
    assert_eq!(ts.scroll_offset, 5);
    ts.scroll(-20);
    assert_eq!(ts.scroll_offset, 0);
    ts.scroll_home();
    assert!(ts.scroll_offset > 0);
    ts.scroll_end();
    assert_eq!(ts.scroll_offset, 0);
    ts.toggle_scrollback();
    assert_eq!(ts.mode, TerminalMode::Insert);
}

#[test]
fn tabs_wrap_and_close_moves_to_neighbour() {
    let mut ts = WorktreeTerminals::new(10u8);
    ts.push(11);
    ts.push(12);
    assert_eq!(ts.active, 2);
    ts.next_tab();
    assert_eq!(ts.active, 0);
    ts.prev_tab();
    assert_eq!(ts.active, 2);
    assert_eq!(ts.active_ref(), Some(&12));
    assert!(!ts.close_active());
    assert_eq!(ts.list, vec![10, 11]);
    assert_eq!(ts.active, 1);
    assert!(!ts.close_active());
    assert!(ts.close_active());
    assert!(ts.list.is_empty());
}

fn act(bell: bool, title: &str, last: Option<u64>) -> TerminalActivity {
    TerminalActivity { bell_pending: bell, title: title.to_string(), last_output_at: last }
}

#[test]
fn agent_state_precedence_bell_then_thinking() {
    let now = 100_000;
    assert_eq!(aggregate_agent_state(&Vec::new(), now, 2_000), AgentState::Idle);
    let idle = vec![act(false, "✳ idle", Some(now)), act(false, "", Some(now - 5_000))];
    assert_eq!(aggregate_agent_state(&idle, now, 2_000), AgentState::Idle);
    let recent = vec![act(false, "", Some(now - 1_000))];
    assert_eq!(aggregate_agent_state(&recent, now, 2_000), AgentState::Thinking);
    let spinner = vec![act(false, "⠂ working", None)];
    assert_eq!(aggregate_agent_state(&spinner, now, 2_000), AgentState::Thinking);
    let bell = vec![act(false, "⠂ working", None), act(true, "", None)];
    assert_eq!(aggregate_agent_state(&bell, now, 2_000), AgentState::Waiting);
}
