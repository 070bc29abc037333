use grove::text_input::TextInput;

#[test]
fn insert_ascii_characters() {
    let mut input = TextInput::default();
    input.insert_char('h');
    input.insert_char('i');
    assert_eq!(input.value(), "hi");
    assert_eq!(input.cursor_byte(), 2);
}

#[test]
fn insert_at_cursor_position() {
    let mut input = TextInput::default();
    for c in "hllo".chars() {
        input.insert_char(c);
    }
    input.home();
    input.move_right();
    input.insert_char('e');
    assert_eq!(input.value(), "hello");
}

#[test]
fn backspace_across_multibyte_boundary() {
    let mut input = TextInput::default();
    input.insert_char('a');
    input.insert_char('😀'); // 4-byte UTF-8
    input.insert_char('b');
    assert_eq!(input.value(), "a😀b");
    input.backspace();
    assert_eq!(input.value(), "a😀");
    input.backspace();
    assert_eq!(input.value(), "a");
    input.backspace();
    assert_eq!(input.value(), "");
    input.backspace();
    assert_eq!(input.value(), "");
}

#[test]
fn delete_at_end_is_noop() {
    let mut input = TextInput::default();
    input.insert_char('a');
    input.delete();
    assert_eq!(input.value(), "a");
}

#[test]
fn delete_removes_char_at_cursor() {
    let mut input = TextInput::default();
    for c in "abc".chars() {
        input.insert_char(c);
    }
    input.home();
    input.delete();
    assert_eq!(input.value(), "bc");
    assert_eq!(input.cursor_byte(), 0);
}

#[test]
fn move_left_right_stay_on_char_boundaries() {
    let mut input = TextInput::default();
    input.insert_char('a');
    input.insert_char('🌲'); // 4-byte UTF-8
    input.insert_char('b');
    // Cursor is at end (byte 6). Move left twice, right once.
    input.move_left();
    assert_eq!(input.cursor_byte(), 5); // after emoji
    input.move_left();
    assert_eq!(input.cursor_byte(), 1); // after 'a'
    input.move_right();
    assert_eq!(input.cursor_byte(), 5);
}

#[test]
fn home_and_end_jump_to_boundaries() {
    let mut input = TextInput::default();
    for c in "hello".chars() {
        input.insert_char(c);
    }
    input.home();
    assert_eq!(input.cursor_byte(), 0);
    input.end();
    assert_eq!(input.cursor_byte(), 5);
}

#[test]
fn cursor_clamped_at_bounds() {
    let mut input = TextInput::default();
    input.move_left();
    assert_eq!(input.cursor_byte(), 0);
    input.insert_char('a');
    input.move_right();
    assert_eq!(input.cursor_byte(), 1);
}

#[test]
fn insert_then_backspace_restores_text_and_cursor() {
    let mut input = TextInput::from_text("héllo");
    input.move_left();
    input.move_left();
    let before_value = input.value();
    let before_cursor = input.cursor_byte();
    input.insert_char('ß');
    assert_eq!(input.value(), "hélßlo");
    input.backspace();
    assert_eq!(input.value(), before_value);
    assert_eq!(input.cursor_byte(), before_cursor);
}

#[test]
fn from_text_puts_cursor_at_end() {
    let input = TextInput::from_text("a😀");
    assert_eq!(input.char_count(), 2);
    assert_eq!(input.cursor_byte(), 5);
    assert_eq!(TextInput::new().value(), "");
}
