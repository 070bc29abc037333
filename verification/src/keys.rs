//! Keys: the key model the UI works with, the bytes a key sends to a
//! shell, configurable key chords and their text form, and the default
//! key bindings of the main view and the dialogs.

use vstd::prelude::*;

use crate::dispatch::AppMessage;
use crate::app::{AppState, Direction, FocusZone, MainView, spec_active_id};
use crate::modals::{DeleteChoice, Modal};
use crate::terminals::TerminalMode;
use crate::text::{decimal, push_char, push_decimal, spec_trim, string_of};

verus! {

/// A key, as the terminal reports it.
#[derive(Debug, Clone, Copy, PartialEq, Eq, Structural)]
pub enum Key {
    Char(char),
    F(u8),
    Backspace,
    Enter,
    Left,
    Right,
    Up,
    Down,
    Home,
    End,
    PageUp,
    PageDown,
    Tab,
    BackTab,
    Delete,
    Insert,
    Null,
    Esc,
    CapsLock,
    ScrollLock,
    NumLock,
    PrintScreen,
    Pause,
    Menu,
    KeypadBegin,
    Media,
    Modifier,
}

/// Modifier keys held with a key.
#[derive(Debug, Clone, Copy, PartialEq, Eq, Structural)]
pub struct Mods {
    pub shift: bool,
    pub control: bool,
    pub alt: bool,
    pub super_key: bool,
    pub hyper: bool,
    pub meta: bool,
}

impl Mods {
    pub open spec fn spec_none() -> Mods {
        Mods { shift: false, control: false, alt: false, super_key: false, hyper: false, meta: false }
    }

    /// No modifier.
    pub fn none() -> (m: Mods)
        ensures
            m == Mods::spec_none(),
    {
        Mods { shift: false, control: false, alt: false, super_key: false, hyper: false, meta: false }
    }
}

/// A key press: the key and the modifiers held.
#[derive(Debug, Clone, Copy, PartialEq, Eq, Structural)]
pub struct KeyPress {
    pub code: Key,
    pub mods: Mods,
}

/// `char::to_ascii_uppercase`.
pub open spec fn ascii_upper(c: char) -> char {
    if 'a' <= c && c <= 'z' {
        ((c as u32) - 32) as char
    } else {
        c
    }
}

/// `char::to_ascii_lowercase`.
pub open spec fn ascii_lower(c: char) -> char {
    if 'A' <= c && c <= 'Z' {
        ((c as u32) + 32) as char
    } else {
        c
    }
}

pub fn to_ascii_upper(c: char) -> (r: char)
    ensures
        r == ascii_upper(c),
{
    if 'a' <= c && c <= 'z' {
        (((c as u32) - 32) as u8) as char
    } else {
        c
    }
}

pub fn to_ascii_lower(c: char) -> (r: char)
    ensures
        r == ascii_lower(c),
{
    if 'A' <= c && c <= 'Z' {
        (((c as u32) + 32) as u8) as char
    } else {
        c
    }
}

/// The UTF-8 bytes of `c`.
pub fn encode_char(c: char) -> (v: Vec<u8>)
    ensures
        v@ == vstd::utf8::encode_scalar(c as u32),
{
    let s = c as u32;
    let mut v: Vec<u8> = Vec::new();
    if s <= 0x7F {
        v.push((s & 0x7F) as u8);
    } else if s <= 0x7FF {
        v.push(0xC0 | ((s >> 6) & 0x1F) as u8);
        v.push(0x80 | (s & 0x3F) as u8);
    } else if s <= 0xFFFF {
        v.push(0xE0 | ((s >> 12) & 0x0F) as u8);
        v.push(0x80 | ((s >> 6) & 0x3F) as u8);
        v.push(0x80 | (s & 0x3F) as u8);
    } else {
        v.push(0xF0 | ((s >> 18) & 0x7) as u8);
        v.push(0x80 | ((s >> 12) & 0x3F) as u8);
        v.push(0x80 | ((s >> 6) & 0x3F) as u8);
        v.push(0x80 | (s & 0x3F) as u8);
    }
    assert(v@ =~= vstd::utf8::encode_scalar(s));
    v
}

/// The bytes a key sends before any Alt prefix; `None` for keys that do
/// not reach the shell (Ctrl+Space is grove's own, unknown function keys
/// and other keys send nothing).
pub open spec fn pty_base(k: Key, m: Mods) -> Option<Seq<u8>> {
    match k {
        Key::Char(c) => if m.control {
            let up = ascii_upper(c);
            let b = (up as u32) % 256;
            if 0x40 <= b <= 0x5F {
                Some(seq![(b - 0x40) as u8])
            } else if up == ' ' {
                None
            } else {
                Some(vstd::utf8::encode_scalar(c as u32))
            }
        } else {
            Some(vstd::utf8::encode_scalar(c as u32))
        },
        Key::Enter => Some(if m.shift { seq![0x0au8] } else { seq![0x0du8] }),
        Key::Tab => Some(seq![0x09u8]),
        Key::BackTab => Some(seq![0x1bu8, 0x5bu8, 0x5au8]),
        Key::Backspace => Some(seq![0x7fu8]),
        Key::Esc => Some(seq![0x1bu8]),
        Key::Up => Some(seq![0x1bu8, 0x5bu8, 0x41u8]),
        Key::Down => Some(seq![0x1bu8, 0x5bu8, 0x42u8]),
        Key::Right => Some(seq![0x1bu8, 0x5bu8, 0x43u8]),
        Key::Left => Some(seq![0x1bu8, 0x5bu8, 0x44u8]),
        Key::Home => Some(seq![0x1bu8, 0x5bu8, 0x48u8]),
        Key::End => Some(seq![0x1bu8, 0x5bu8, 0x46u8]),
        Key::PageUp => Some(seq![0x1bu8, 0x5bu8, 0x35u8, 0x7eu8]),
        Key::PageDown => Some(seq![0x1bu8, 0x5bu8, 0x36u8, 0x7eu8]),
        Key::Delete => Some(seq![0x1bu8, 0x5bu8, 0x33u8, 0x7eu8]),
        Key::Insert => Some(seq![0x1bu8, 0x5bu8, 0x32u8, 0x7eu8]),
        Key::F(n) => f_key_bytes(n),
        _ => None,
    }
}

/// The VT sequence of function key `n` (F1 to F12).
pub open spec fn f_key_bytes(n: u8) -> Option<Seq<u8>> {
    if n == 1 {
        Some(seq![0x1bu8, 0x4fu8, 0x50u8])
    }     else if n == 2 {
        Some(seq![0x1bu8, 0x4fu8, 0x51u8])
    }     else if n == 3 {
        Some(seq![0x1bu8, 0x4fu8, 0x52u8])
    }     else if n == 4 {
        Some(seq![0x1bu8, 0x4fu8, 0x53u8])
    }     else if n == 5 {
        Some(seq![0x1bu8, 0x5bu8, 0x31u8, 0x35u8, 0x7eu8])
    }     else if n == 6 {
        Some(seq![0x1bu8, 0x5bu8, 0x31u8, 0x37u8, 0x7eu8])
    }     else if n == 7 {
        Some(seq![0x1bu8, 0x5bu8, 0x31u8, 0x38u8, 0x7eu8])
    }     else if n == 8 {
        Some(seq![0x1bu8, 0x5bu8, 0x31u8, 0x39u8, 0x7eu8])
    }     else if n == 9 {
        Some(seq![0x1bu8, 0x5bu8, 0x32u8, 0x30u8, 0x7eu8])
    }     else if n == 10 {
        Some(seq![0x1bu8, 0x5bu8, 0x32u8, 0x31u8, 0x7eu8])
    }     else if n == 11 {
        Some(seq![0x1bu8, 0x5bu8, 0x32u8, 0x33u8, 0x7eu8])
    }     else if n == 12 {
        Some(seq![0x1bu8, 0x5bu8, 0x32u8, 0x34u8, 0x7eu8])
    } else {
        None
    }
}

/// What a key press sends to the shell: its bytes, with an ESC in front
/// when Alt is held and they do not start with ESC already.
pub open spec fn spec_pty_bytes(k: KeyPress) -> Option<Seq<u8>> {
    match pty_base(k.code, k.mods) {
        None => None,
        Some(b) => if k.mods.alt && b.len() > 0 && b[0] != 0x1bu8 {
            Some(seq![0x1bu8] + b)
        } else {
            Some(b)
        },
    }
}

/// The arrow keys send the VT100 cursor sequences, `ESC [` and then `A`
/// (up), `B` (down), `C` (right) or `D` (left), whatever modifiers are
/// held.
pub proof fn law_arrow_key_bytes(m: Mods)
    ensures
        spec_pty_bytes(KeyPress { code: Key::Up, mods: m }) == Some(seq![0x1bu8, 0x5bu8, 0x41u8]),
        spec_pty_bytes(KeyPress { code: Key::Down, mods: m }) == Some(seq![0x1bu8, 0x5bu8, 0x42u8]),
        spec_pty_bytes(KeyPress { code: Key::Right, mods: m }) == Some(seq![0x1bu8, 0x5bu8, 0x43u8]),
        spec_pty_bytes(KeyPress { code: Key::Left, mods: m }) == Some(seq![0x1bu8, 0x5bu8, 0x44u8]),
{
}

/// A plain ASCII character typed alone is sent as its own byte; with
/// Control, a letter `a`–`z` (either case) is sent as the control byte
/// 1–26 (Ctrl+A is 1, Ctrl+Z is 26).
pub proof fn law_char_key_bytes(c: char)
    ensures
        (c as u32) < 0x80 ==> spec_pty_bytes(KeyPress { code: Key::Char(c), mods: Mods::spec_none() }) == Some(
            seq![(c as u32) as u8],
        ),
        'a' <= c <= 'z' ==> spec_pty_bytes(KeyPress { code: Key::Char(c), mods: Mods { control: true, ..Mods::spec_none() } })
            == Some(seq![((c as u32) - 0x60) as u8]),
        'A' <= c <= 'Z' ==> spec_pty_bytes(KeyPress { code: Key::Char(c), mods: Mods { control: true, ..Mods::spec_none() } })
            == Some(seq![((c as u32) - 0x40) as u8]),
{
    let v = c as u32;
    if v < 0x80 {
        assert(v & 0x7f == v) by (bit_vector)
            requires
                v < 0x80,
        ;
    }
}

/// The keys a shell tells apart by their own sequence: everything but
/// characters and the keys that send nothing.
pub open spec fn is_named_key(k: Key) -> bool {
    match k {
        Key::Enter | Key::Tab | Key::BackTab | Key::Backspace | Key::Esc | Key::Up | Key::Down | Key::Right | Key::Left
        | Key::Home | Key::End | Key::PageUp | Key::PageDown | Key::Delete | Key::Insert => true,
        Key::F(n) => 1 <= n <= 12,
        _ => false,
    }
}

/// The named key that sends `b`, read off its bytes: single control
/// bytes, `ESC [ x`, `ESC O x`, `ESC [ x ~` and `ESC [ x y ~`.
pub open spec fn named_key_of_bytes(b: Seq<u8>) -> Option<Key> {
    if b.len() == 1 {
        if b[0] == 0x0du8 {
            Some(Key::Enter)
        } else if b[0] == 0x09u8 {
            Some(Key::Tab)
        } else if b[0] == 0x7fu8 {
            Some(Key::Backspace)
        } else if b[0] == 0x1bu8 {
            Some(Key::Esc)
        } else {
            None
        }
    } else if b.len() == 3 && b[0] == 0x1bu8 && b[1] == 0x5bu8 {
        if b[2] == 0x41u8 {
            Some(Key::Up)
        } else if b[2] == 0x42u8 {
            Some(Key::Down)
        } else if b[2] == 0x43u8 {
            Some(Key::Right)
        } else if b[2] == 0x44u8 {
            Some(Key::Left)
        } else if b[2] == 0x48u8 {
            Some(Key::Home)
        } else if b[2] == 0x46u8 {
            Some(Key::End)
        } else if b[2] == 0x5au8 {
            Some(Key::BackTab)
        } else {
            None
        }
    } else if b.len() == 3 && b[0] == 0x1bu8 && b[1] == 0x4fu8 && 0x50u8 <= b[2] <= 0x53u8 {
        Some(Key::F((b[2] - 0x4fu8) as u8))
    } else if b.len() == 4 && b[0] == 0x1bu8 && b[1] == 0x5bu8 && b[3] == 0x7eu8 {
        if b[2] == 0x35u8 {
            Some(Key::PageUp)
        } else if b[2] == 0x36u8 {
            Some(Key::PageDown)
        } else if b[2] == 0x33u8 {
            Some(Key::Delete)
        } else if b[2] == 0x32u8 {
            Some(Key::Insert)
        } else {
            None
        }
    } else if b.len() == 5 && b[0] == 0x1bu8 && b[1] == 0x5bu8 && b[4] == 0x7eu8 {
        if b[2] == 0x31u8 && b[3] == 0x35u8 {
            Some(Key::F(5))
        } else if b[2] == 0x31u8 && b[3] == 0x37u8 {
            Some(Key::F(6))
        } else if b[2] == 0x31u8 && b[3] == 0x38u8 {
            Some(Key::F(7))
        } else if b[2] == 0x31u8 && b[3] == 0x39u8 {
            Some(Key::F(8))
        } else if b[2] == 0x32u8 && b[3] == 0x30u8 {
            Some(Key::F(9))
        } else if b[2] == 0x32u8 && b[3] == 0x31u8 {
            Some(Key::F(10))
        } else if b[2] == 0x32u8 && b[3] == 0x33u8 {
            Some(Key::F(11))
        } else if b[2] == 0x32u8 && b[3] == 0x34u8 {
            Some(Key::F(12))
        } else {
            None
        }
    } else {
        None
    }
}

/// A named key pressed alone sends a sequence the shell can read back as
/// that key.
pub proof fn law_named_key_bytes_read_back(k: Key)
    requires
        is_named_key(k),
    ensures
        spec_pty_bytes(KeyPress { code: k, mods: Mods::spec_none() }) matches Some(b) && named_key_of_bytes(b) == Some(k),
{
}

/// Distinct named keys pressed alone send distinct sequences.
pub proof fn law_named_keys_send_distinct_bytes(k1: Key, k2: Key)
    requires
        is_named_key(k1),
        is_named_key(k2),
        k1 != k2,
    ensures
        spec_pty_bytes(KeyPress { code: k1, mods: Mods::spec_none() }) != spec_pty_bytes(
            KeyPress { code: k2, mods: Mods::spec_none() },
        ),
{
    law_named_key_bytes_read_back(k1);
    law_named_key_bytes_read_back(k2);
}

fn bytes_of(s: &[u8]) -> (v: Vec<u8>)
    ensures
        v@ == s@,
{
    let mut v: Vec<u8> = Vec::new();
    let mut i: usize = 0;
    while i < s.len()
        invariant
            i <= s@.len(),
            v@ == s@.subrange(0, i as int),
        decreases s@.len() - i,
    {
        v.push(s[i]);
        i += 1;
    }
    assert(s@.subrange(0, s@.len() as int) =~= s@);
    v
}

fn f_key(n: u8) -> (r: Option<Vec<u8>>)
    ensures
        match f_key_bytes(n) {
            Some(b) => r matches Some(v) && v@ == b,
            None => r.is_none(),
        },
{
    if n == 1 {
        let v = bytes_of(&[0x1b, 0x4f, 0x50]);
        assert(v@ =~= seq![0x1bu8, 0x4fu8, 0x50u8]);
        return Some(v);
    }
    if n == 2 {
        let v = bytes_of(&[0x1b, 0x4f, 0x51]);
        assert(v@ =~= seq![0x1bu8, 0x4fu8, 0x51u8]);
        return Some(v);
    }
    if n == 3 {
        let v = bytes_of(&[0x1b, 0x4f, 0x52]);
        assert(v@ =~= seq![0x1bu8, 0x4fu8, 0x52u8]);
        return Some(v);
    }
    if n == 4 {
        let v = bytes_of(&[0x1b, 0x4f, 0x53]);
        assert(v@ =~= seq![0x1bu8, 0x4fu8, 0x53u8]);
        return Some(v);
    }
    if n == 5 {
        let v = bytes_of(&[0x1b, 0x5b, 0x31, 0x35, 0x7e]);
        assert(v@ =~= seq![0x1bu8, 0x5bu8, 0x31u8, 0x35u8, 0x7eu8]);
        return Some(v);
    }
    if n == 6 {
        let v = bytes_of(&[0x1b, 0x5b, 0x31, 0x37, 0x7e]);
        assert(v@ =~= seq![0x1bu8, 0x5bu8, 0x31u8, 0x37u8, 0x7eu8]);
        return Some(v);
    }
    if n == 7 {
        let v = bytes_of(&[0x1b, 0x5b, 0x31, 0x38, 0x7e]);
        assert(v@ =~= seq![0x1bu8, 0x5bu8, 0x31u8, 0x38u8, 0x7eu8]);
        return Some(v);
    }
    if n == 8 {
        let v = bytes_of(&[0x1b, 0x5b, 0x31, 0x39, 0x7e]);
        assert(v@ =~= seq![0x1bu8, 0x5bu8, 0x31u8, 0x39u8, 0x7eu8]);
        return Some(v);
    }
    if n == 9 {
        let v = bytes_of(&[0x1b, 0x5b, 0x32, 0x30, 0x7e]);
        assert(v@ =~= seq![0x1bu8, 0x5bu8, 0x32u8, 0x30u8, 0x7eu8]);
        return Some(v);
    }
    if n == 10 {
        let v = bytes_of(&[0x1b, 0x5b, 0x32, 0x31, 0x7e]);
        assert(v@ =~= seq![0x1bu8, 0x5bu8, 0x32u8, 0x31u8, 0x7eu8]);
        return Some(v);
    }
    if n == 11 {
        let v = bytes_of(&[0x1b, 0x5b, 0x32, 0x33, 0x7e]);
        assert(v@ =~= seq![0x1bu8, 0x5bu8, 0x32u8, 0x33u8, 0x7eu8]);
        return Some(v);
    }
    if n == 12 {
        let v = bytes_of(&[0x1b, 0x5b, 0x32, 0x34, 0x7e]);
        assert(v@ =~= seq![0x1bu8, 0x5bu8, 0x32u8, 0x34u8, 0x7eu8]);
        return Some(v);
    }
    None
}

fn pty_base_exec(k: Key, m: Mods) -> (r: Option<Vec<u8>>)
    ensures
        match pty_base(k, m) {
            Some(b) => r matches Some(v) && v@ == b,
            None => r.is_none(),
        },
{
    match k {
        Key::Char(c) => {
            if m.control {
                let up = to_ascii_upper(c);
                let b = (up as u32) % 256;
                if 0x40 <= b && b <= 0x5F {
                    let mut v: Vec<u8> = Vec::new();
                    v.push((b - 0x40) as u8);
                    assert(v@ =~= seq![(b - 0x40) as u8]);
                    Some(v)
                } else if up == ' ' {
                    None
                } else {
                    Some(encode_char(c))
                }
            } else {
                Some(encode_char(c))
            }
        },
        Key::Enter => {
            let mut v: Vec<u8> = Vec::new();
            v.push(if m.shift { 0x0a } else { 0x0d });
            assert(v@ =~= if m.shift { seq![0x0au8] } else { seq![0x0du8] });
            Some(v)
        },
        Key::Tab => {
            let v = bytes_of(&[0x09]);
            assert(v@ =~= seq![0x09u8]);
            Some(v)
        },
        Key::BackTab => {
            let v = bytes_of(&[0x1b, 0x5b, 0x5a]);
            assert(v@ =~= seq![0x1bu8, 0x5bu8, 0x5au8]);
            Some(v)
        },
        Key::Backspace => {
            let v = bytes_of(&[0x7f]);
            assert(v@ =~= seq![0x7fu8]);
            Some(v)
        },
        Key::Esc => {
            let v = bytes_of(&[0x1b]);
            assert(v@ =~= seq![0x1bu8]);
            Some(v)
        },
        Key::Up => {
            let v = bytes_of(&[0x1b, 0x5b, 0x41]);
            assert(v@ =~= seq![0x1bu8, 0x5bu8, 0x41u8]);
            Some(v)
        },
        Key::Down => {
            let v = bytes_of(&[0x1b, 0x5b, 0x42]);
            assert(v@ =~= seq![0x1bu8, 0x5bu8, 0x42u8]);
            Some(v)
        },
        Key::Right => {
            let v = bytes_of(&[0x1b, 0x5b, 0x43]);
            assert(v@ =~= seq![0x1bu8, 0x5bu8, 0x43u8]);
            Some(v)
        },
        Key::Left => {
            let v = bytes_of(&[0x1b, 0x5b, 0x44]);
            assert(v@ =~= seq![0x1bu8, 0x5bu8, 0x44u8]);
            Some(v)
        },
        Key::Home => {
            let v = bytes_of(&[0x1b, 0x5b, 0x48]);
            assert(v@ =~= seq![0x1bu8, 0x5bu8, 0x48u8]);
            Some(v)
        },
        Key::End => {
            let v = bytes_of(&[0x1b, 0x5b, 0x46]);
            assert(v@ =~= seq![0x1bu8, 0x5bu8, 0x46u8]);
            Some(v)
        },
        Key::PageUp => {
            let v = bytes_of(&[0x1b, 0x5b, 0x35, 0x7e]);
            assert(v@ =~= seq![0x1bu8, 0x5bu8, 0x35u8, 0x7eu8]);
            Some(v)
        },
        Key::PageDown => {
            let v = bytes_of(&[0x1b, 0x5b, 0x36, 0x7e]);
            assert(v@ =~= seq![0x1bu8, 0x5bu8, 0x36u8, 0x7eu8]);
            Some(v)
        },
        Key::Delete => {
            let v = bytes_of(&[0x1b, 0x5b, 0x33, 0x7e]);
            assert(v@ =~= seq![0x1bu8, 0x5bu8, 0x33u8, 0x7eu8]);
            Some(v)
        },
        Key::Insert => {
            let v = bytes_of(&[0x1b, 0x5b, 0x32, 0x7e]);
            assert(v@ =~= seq![0x1bu8, 0x5bu8, 0x32u8, 0x7eu8]);
            Some(v)
        },
        Key::F(n) => f_key(n),
        _ => None,
    }
}

/// The bytes to write to the shell for a key press, or `None` when the
/// key does not reach the shell.
pub fn key_to_pty_bytes(key: KeyPress) -> (r: Option<Vec<u8>>)
    ensures
        match spec_pty_bytes(key) {
            Some(b) => r matches Some(v) && v@ == b,
            None => r.is_none(),
        },
{
    let mut out = match pty_base_exec(key.code, key.mods) {
        Some(v) => v,
        None => return None,
    };
    if key.mods.alt && out.len() > 0 && out[0] != 0x1b {
        let ghost before = out@;
        out.insert(0, 0x1b);
        assert(out@ =~= seq![0x1bu8] + before);
    }
    Some(out)
}

/// A configurable key binding: a key and the modifiers that must be held.
#[derive(Debug, Clone, Copy, PartialEq, Eq, Structural)]
pub struct KeyChord {
    pub code: Key,
    pub mods: Mods,
}

/// The modifiers a chord compares: Ctrl, Alt and Shift.
pub open spec fn same_cas(a: Mods, b: Mods) -> bool {
    a.control == b.control && a.alt == b.alt && a.shift == b.shift
}

/// The name of a key in a chord's text: the character itself, `F<n>`,
/// or the key's name.
pub open spec fn key_name(k: Key) -> Seq<char> {
    match k {
        Key::Char(c) => seq![c],
        Key::F(n) => seq!['F'] + decimal(n as nat),
        Key::Backspace => seq!['B', 'a', 'c', 'k', 's', 'p', 'a', 'c', 'e'],
        Key::Enter => seq!['E', 'n', 't', 'e', 'r'],
        Key::Left => seq!['L', 'e', 'f', 't'],
        Key::Right => seq!['R', 'i', 'g', 'h', 't'],
        Key::Up => seq!['U', 'p'],
        Key::Down => seq!['D', 'o', 'w', 'n'],
        Key::Home => seq!['H', 'o', 'm', 'e'],
        Key::End => seq!['E', 'n', 'd'],
        Key::PageUp => seq!['P', 'a', 'g', 'e', 'U', 'p'],
        Key::PageDown => seq!['P', 'a', 'g', 'e', 'D', 'o', 'w', 'n'],
        Key::Tab => seq!['T', 'a', 'b'],
        Key::BackTab => seq!['B', 'a', 'c', 'k', 'T', 'a', 'b'],
        Key::Delete => seq!['D', 'e', 'l', 'e', 't', 'e'],
        Key::Insert => seq!['I', 'n', 's', 'e', 'r', 't'],
        Key::Null => seq!['N', 'u', 'l', 'l'],
        Key::Esc => seq!['E', 's', 'c'],
        Key::CapsLock => seq!['C', 'a', 'p', 's', 'L', 'o', 'c', 'k'],
        Key::ScrollLock => seq!['S', 'c', 'r', 'o', 'l', 'l', 'L', 'o', 'c', 'k'],
        Key::NumLock => seq!['N', 'u', 'm', 'L', 'o', 'c', 'k'],
        Key::PrintScreen => seq!['P', 'r', 'i', 'n', 't', 'S', 'c', 'r', 'e', 'e', 'n'],
        Key::Pause => seq!['P', 'a', 'u', 's', 'e'],
        Key::Menu => seq!['M', 'e', 'n', 'u'],
        Key::KeypadBegin => seq!['K', 'e', 'y', 'p', 'a', 'd', 'B', 'e', 'g', 'i', 'n'],
        Key::Media => seq!['M', 'e', 'd', 'i', 'a'],
        Key::Modifier => seq!['M', 'o', 'd', 'i', 'f', 'i', 'e', 'r'],
    }
}

/// A chord's text: `Ctrl+`, `Alt+`, `Shift+` as held, then the key.
pub open spec fn chord_text(c: KeyChord) -> Seq<char> {
    (if c.mods.control { seq!['C', 't', 'r', 'l', '+'] } else { Seq::empty() }) + (if c.mods.alt {
        seq!['A', 'l', 't', '+']
    } else {
        Seq::empty()
    }) + (if c.mods.shift { seq!['S', 'h', 'i', 'f', 't', '+'] } else { Seq::empty() }) + key_name(c.code)
}

fn push_key_name(s: &mut String, k: Key)
    ensures
        final(s)@ == old(s)@ + key_name(k),
{
    match k {
        Key::Char(c) => {
            push_char(s, c);
            assert(final(s)@ =~= old(s)@ + seq![c]);
        },
        Key::F(n) => {
            push_char(s, 'F');
            push_decimal(s, n as usize);
            assert(final(s)@ =~= old(s)@ + (seq!['F'] + decimal(n as nat)));
        },
        Key::Backspace => {
            s.append("Backspace");
            proof {
                reveal_strlit("Backspace");
                assert(final(s)@ =~= old(s)@ + seq!['B', 'a', 'c', 'k', 's', 'p', 'a', 'c', 'e']);
            }
        },
        Key::Enter => {
            s.append("Enter");
            proof {
                reveal_strlit("Enter");
                assert(final(s)@ =~= old(s)@ + seq!['E', 'n', 't', 'e', 'r']);
            }
        },
        Key::Left => {
            s.append("Left");
            proof {
                reveal_strlit("Left");
                assert(final(s)@ =~= old(s)@ + seq!['L', 'e', 'f', 't']);
            }
        },
        Key::Right => {
            s.append("Right");
            proof {
                reveal_strlit("Right");
                assert(final(s)@ =~= old(s)@ + seq!['R', 'i', 'g', 'h', 't']);
            }
        },
        Key::Up => {
            s.append("Up");
            proof {
                reveal_strlit("Up");
                assert(final(s)@ =~= old(s)@ + seq!['U', 'p']);
            }
        },
        Key::Down => {
            s.append("Down");
            proof {
                reveal_strlit("Down");
                assert(final(s)@ =~= old(s)@ + seq!['D', 'o', 'w', 'n']);
            }
        },
        Key::Home => {
            s.append("Home");
            proof {
                reveal_strlit("Home");
                assert(final(s)@ =~= old(s)@ + seq!['H', 'o', 'm', 'e']);
            }
        },
        Key::End => {
            s.append("End");
            proof {
                reveal_strlit("End");
                assert(final(s)@ =~= old(s)@ + seq!['E', 'n', 'd']);
            }
        },
        Key::PageUp => {
            s.append("PageUp");
            proof {
                reveal_strlit("PageUp");
                assert(final(s)@ =~= old(s)@ + seq!['P', 'a', 'g', 'e', 'U', 'p']);
            }
        },
        Key::PageDown => {
            s.append("PageDown");
            proof {
                reveal_strlit("PageDown");
                assert(final(s)@ =~= old(s)@ + seq!['P', 'a', 'g', 'e', 'D', 'o', 'w', 'n']);
            }
        },
        Key::Tab => {
            s.append("Tab");
            proof {
                reveal_strlit("Tab");
                assert(final(s)@ =~= old(s)@ + seq!['T', 'a', 'b']);
            }
        },
        Key::BackTab => {
            s.append("BackTab");
            proof {
                reveal_strlit("BackTab");
                assert(final(s)@ =~= old(s)@ + seq!['B', 'a', 'c', 'k', 'T', 'a', 'b']);
            }
        },
        Key::Delete => {
            s.append("Delete");
            proof {
                reveal_strlit("Delete");
                assert(final(s)@ =~= old(s)@ + seq!['D', 'e', 'l', 'e', 't', 'e']);
            }
        },
        Key::Insert => {
            s.append("Insert");
            proof {
                reveal_strlit("Insert");
                assert(final(s)@ =~= old(s)@ + seq!['I', 'n', 's', 'e', 'r', 't']);
            }
        },
        Key::Null => {
            s.append("Null");
            proof {
                reveal_strlit("Null");
                assert(final(s)@ =~= old(s)@ + seq!['N', 'u', 'l', 'l']);
            }
        },
        Key::Esc => {
            s.append("Esc");
            proof {
                reveal_strlit("Esc");
                assert(final(s)@ =~= old(s)@ + seq!['E', 's', 'c']);
            }
        },
        Key::CapsLock => {
            s.append("CapsLock");
            proof {
                reveal_strlit("CapsLock");
                assert(final(s)@ =~= old(s)@ + seq!['C', 'a', 'p', 's', 'L', 'o', 'c', 'k']);
            }
        },
        Key::ScrollLock => {
            s.append("ScrollLock");
            proof {
                reveal_strlit("ScrollLock");
                assert(final(s)@ =~= old(s)@ + seq!['S', 'c', 'r', 'o', 'l', 'l', 'L', 'o', 'c', 'k']);
            }
        },
        Key::NumLock => {
            s.append("NumLock");
            proof {
                reveal_strlit("NumLock");
                assert(final(s)@ =~= old(s)@ + seq!['N', 'u', 'm', 'L', 'o', 'c', 'k']);
            }
        },
        Key::PrintScreen => {
            s.append("PrintScreen");
            proof {
                reveal_strlit("PrintScreen");
                assert(final(s)@ =~= old(s)@ + seq!['P', 'r', 'i', 'n', 't', 'S', 'c', 'r', 'e', 'e', 'n']);
            }
        },
        Key::Pause => {
            s.append("Pause");
            proof {
                reveal_strlit("Pause");
                assert(final(s)@ =~= old(s)@ + seq!['P', 'a', 'u', 's', 'e']);
            }
        },
        Key::Menu => {
            s.append("Menu");
            proof {
                reveal_strlit("Menu");
                assert(final(s)@ =~= old(s)@ + seq!['M', 'e', 'n', 'u']);
            }
        },
        Key::KeypadBegin => {
            s.append("KeypadBegin");
            proof {
                reveal_strlit("KeypadBegin");
                assert(final(s)@ =~= old(s)@ + seq!['K', 'e', 'y', 'p', 'a', 'd', 'B', 'e', 'g', 'i', 'n']);
            }
        },
        Key::Media => {
            s.append("Media");
            proof {
                reveal_strlit("Media");
                assert(final(s)@ =~= old(s)@ + seq!['M', 'e', 'd', 'i', 'a']);
            }
        },
        Key::Modifier => {
            s.append("Modifier");
            proof {
                reveal_strlit("Modifier");
                assert(final(s)@ =~= old(s)@ + seq!['M', 'o', 'd', 'i', 'f', 'i', 'e', 'r']);
            }
        },
    }
}

/// Split `s` at every `c` (`str::split`).
pub open spec fn split_on(s: Seq<char>, c: char) -> Seq<Seq<char>>
    decreases s.len(),
{
    if s.len() == 0 {
        seq![Seq::<char>::empty()]
    } else {
        let prev = split_on(s.drop_last(), c);
        if s.last() == c {
            prev.push(Seq::empty())
        } else {
            prev.update(prev.len() - 1, prev.last().push(s.last()))
        }
    }
}

pub(crate) proof fn lemma_split_nonempty(s: Seq<char>, c: char)
    ensures
        split_on(s, c).len() >= 1,
    decreases s.len(),
{
    if s.len() > 0 {
        lemma_split_nonempty(s.drop_last(), c);
    }
}

pub open spec fn lower(s: Seq<char>) -> Seq<char> {
    s.map_values(|c: char| ascii_lower(c))
}

/// What a modifier word adds to `m`, or the error for an unknown word.
pub open spec fn apply_mod(m: Mods, word: Seq<char>) -> Result<Mods, Seq<char>> {
    let w = lower(word);
    if w == seq!['c', 't', 'r', 'l'] || w == seq!['c', 'o', 'n', 't', 'r', 'o', 'l'] {
        Ok(Mods { control: true, ..m })
    } else if w == seq!['a', 'l', 't'] || w == seq!['o', 'p', 't', 'i', 'o', 'n'] || w == seq!['o', 'p', 't'] || w == seq![
        'm',
        'e',
        't',
        'a',
    ] {
        Ok(Mods { alt: true, ..m })
    } else if w == seq!['s', 'h', 'i', 'f', 't'] {
        Ok(Mods { shift: true, ..m })
    } else {
        Err(seq!['u', 'n', 'k', 'n', 'o', 'w', 'n', ' ', 'm', 'o', 'd', 'i', 'f', 'i', 'e', 'r', ':', ' '] + w)
    }
}

/// The modifiers named by `ws`, left to right; the first unknown one is
/// the error.
pub open spec fn parse_mods(ws: Seq<Seq<char>>) -> Result<Mods, Seq<char>>
    decreases ws.len(),
{
    if ws.len() == 0 {
        Ok(Mods::spec_none())
    } else {
        match parse_mods(ws.drop_last()) {
            Err(e) => Err(e),
            Ok(m) => apply_mod(m, ws.last()),
        }
    }
}

/// The key a name stands for, among the named keys.
pub open spec fn named_key(k: Seq<char>) -> Option<Key> {
    if k == seq!['e', 'n', 't', 'e', 'r'] || k == seq!['E', 'n', 't', 'e', 'r'] || k == seq!['R', 'e', 't', 'u', 'r', 'n'] || k == seq!['r', 'e', 't', 'u', 'r', 'n'] {
        Some(Key::Enter)
    }     else if k == seq!['e', 's', 'c'] || k == seq!['E', 's', 'c'] || k == seq!['e', 's', 'c', 'a', 'p', 'e'] || k == seq!['E', 's', 'c', 'a', 'p', 'e'] {
        Some(Key::Esc)
    }     else if k == seq!['u', 'p'] || k == seq!['U', 'p'] {
        Some(Key::Up)
    }     else if k == seq!['d', 'o', 'w', 'n'] || k == seq!['D', 'o', 'w', 'n'] {
        Some(Key::Down)
    }     else if k == seq!['l', 'e', 'f', 't'] || k == seq!['L', 'e', 'f', 't'] {
        Some(Key::Left)
    }     else if k == seq!['r', 'i', 'g', 'h', 't'] || k == seq!['R', 'i', 'g', 'h', 't'] {
        Some(Key::Right)
    }     else if k == seq!['h', 'o', 'm', 'e'] || k == seq!['H', 'o', 'm', 'e'] {
        Some(Key::Home)
    }     else if k == seq!['e', 'n', 'd'] || k == seq!['E', 'n', 'd'] {
        Some(Key::End)
    }     else if k == seq!['p', 'a', 'g', 'e', 'u', 'p'] || k == seq!['P', 'a', 'g', 'e', 'U', 'p'] || k == seq!['p', 'g', 'u', 'p'] {
        Some(Key::PageUp)
    }     else if k == seq!['p', 'a', 'g', 'e', 'd', 'o', 'w', 'n'] || k == seq!['P', 'a', 'g', 'e', 'D', 'o', 'w', 'n'] || k == seq!['p', 'g', 'd', 'n'] {
        Some(Key::PageDown)
    }     else if k == seq!['b', 'a', 'c', 'k', 's', 'p', 'a', 'c', 'e'] || k == seq!['B', 'a', 'c', 'k', 's', 'p', 'a', 'c', 'e'] {
        Some(Key::Backspace)
    }     else if k == seq!['d', 'e', 'l', 'e', 't', 'e'] || k == seq!['D', 'e', 'l', 'e', 't', 'e'] {
        Some(Key::Delete)
    }     else if k == seq!['t', 'a', 'b'] || k == seq!['T', 'a', 'b'] {
        Some(Key::Tab)
    }     else if k == seq!['s', 'p', 'a', 'c', 'e'] || k == seq!['S', 'p', 'a', 'c', 'e'] {
        Some(Key::Char(' '))
    } else {
        None
    }
}

/// The value of a run of decimal digits, if it is one.
pub open spec fn digits_value(s: Seq<char>) -> Option<nat>
    decreases s.len(),
{
    if s.len() == 0 {
        Some(0)
    } else if '0' <= s.last() && s.last() <= '9' {
        match digits_value(s.drop_last()) {
            Some(v) => Some((v * 10 + (s.last() as nat - '0' as nat)) as nat),
            None => None,
        }
    } else {
        None
    }
}

/// `u8::from_str` on `s` (no sign can occur here): one or more digits
/// with a value below 256.
pub open spec fn parse_u8(s: Seq<char>) -> Option<u8> {
    if s.len() > 0 && digits_value(s).is_some() && digits_value(s).unwrap() < 256 {
        Some(digits_value(s).unwrap() as u8)
    } else {
        None
    }
}

/// The key a key word names: a named key, `F<n>` / `f<n>`, or a single
/// character.
pub open spec fn parse_key_word(k: Seq<char>) -> Result<Key, Seq<char>> {
    match named_key(k) {
        Some(key) => Ok(key),
        None => if k.len() > 1 && (k[0] == 'F' || k[0] == 'f') {
            match parse_u8(k.drop_first()) {
                Some(n) => Ok(Key::F(n)),
                None => Err(seq!['b', 'a', 'd', ' ', 'f', 'u', 'n', 'c', 't', 'i', 'o', 'n', '-', 'k', 'e', 'y', ' ', 's', 'p', 'e', 'c', ':', ' '] + k),
            }
        } else if k.len() == 1 {
            Ok(Key::Char(k[0]))
        } else {
            Err(seq!['u', 'n', 'k', 'n', 'o', 'w', 'n', ' ', 'k', 'e', 'y', ':', ' '] + k)
        },
    }
}

/// A chord from its text: `+`-separated words, each trimmed; the last is
/// the key, the others modifiers.
pub open spec fn spec_parse_chord(s: Seq<char>) -> Result<KeyChord, Seq<char>> {
    let parts = split_on(s, '+').map_values(|p: Seq<char>| spec_trim(p));
    match parse_mods(parts.drop_last()) {
        Err(e) => Err(e),
        Ok(m) => match parse_key_word(parts.last()) {
            Ok(k) => Ok(KeyChord { code: k, mods: m }),
            Err(e) => Err(e),
        },
    }
}

/// Do the characters `v` spell `s`?
fn is_word(v: &Vec<char>, s: &str) -> (b: bool)
    ensures
        b == (v@ == s@),
{
    let w = crate::text::chars_of(s);
    if v.len() != w.len() {
        return false;
    }
    let mut i: usize = 0;
    while i < v.len()
        invariant
            i <= v@.len(),
            v@.len() == w@.len(),
            w@ == s@,
            forall|j: int| 0 <= j < i ==> v@[j] == w@[j],
        decreases v@.len() - i,
    {
        if v[i] != w[i] {
            return false;
        }
        i += 1;
    }
    assert(v@ =~= s@);
    true
}

fn named_key_exec(k: &Vec<char>) -> (r: Option<Key>)
    ensures
        r == named_key(k@),
{
    proof {
        lemma_key_names();
    }
    if is_word(k, "enter") || is_word(k, "Enter") || is_word(k, "Return") || is_word(k, "return") {
        return Some(Key::Enter);
    }
    if is_word(k, "esc") || is_word(k, "Esc") || is_word(k, "escape") || is_word(k, "Escape") {
        return Some(Key::Esc);
    }
    if is_word(k, "up") || is_word(k, "Up") {
        return Some(Key::Up);
    }
    if is_word(k, "down") || is_word(k, "Down") {
        return Some(Key::Down);
    }
    if is_word(k, "left") || is_word(k, "Left") {
        return Some(Key::Left);
    }
    if is_word(k, "right") || is_word(k, "Right") {
        return Some(Key::Right);
    }
    if is_word(k, "home") || is_word(k, "Home") {
        return Some(Key::Home);
    }
    if is_word(k, "end") || is_word(k, "End") {
        return Some(Key::End);
    }
    if is_word(k, "pageup") || is_word(k, "PageUp") || is_word(k, "pgup") {
        return Some(Key::PageUp);
    }
    if is_word(k, "pagedown") || is_word(k, "PageDown") || is_word(k, "pgdn") {
        return Some(Key::PageDown);
    }
    if is_word(k, "backspace") || is_word(k, "Backspace") {
        return Some(Key::Backspace);
    }
    if is_word(k, "delete") || is_word(k, "Delete") {
        return Some(Key::Delete);
    }
    if is_word(k, "tab") || is_word(k, "Tab") {
        return Some(Key::Tab);
    }
    if is_word(k, "space") || is_word(k, "Space") {
        return Some(Key::Char(' '));
    }
    None
}

proof fn lemma_key_names()
    ensures
        "Backspace"@ == seq!['B', 'a', 'c', 'k', 's', 'p', 'a', 'c', 'e'],
        "Delete"@ == seq!['D', 'e', 'l', 'e', 't', 'e'],
        "Down"@ == seq!['D', 'o', 'w', 'n'],
        "End"@ == seq!['E', 'n', 'd'],
        "Enter"@ == seq!['E', 'n', 't', 'e', 'r'],
        "Esc"@ == seq!['E', 's', 'c'],
        "Escape"@ == seq!['E', 's', 'c', 'a', 'p', 'e'],
        "Home"@ == seq!['H', 'o', 'm', 'e'],
        "Left"@ == seq!['L', 'e', 'f', 't'],
        "PageDown"@ == seq!['P', 'a', 'g', 'e', 'D', 'o', 'w', 'n'],
        "PageUp"@ == seq!['P', 'a', 'g', 'e', 'U', 'p'],
        "Return"@ == seq!['R', 'e', 't', 'u', 'r', 'n'],
        "Right"@ == seq!['R', 'i', 'g', 'h', 't'],
        "Space"@ == seq!['S', 'p', 'a', 'c', 'e'],
        "Tab"@ == seq!['T', 'a', 'b'],
        "Up"@ == seq!['U', 'p'],
        "backspace"@ == seq!['b', 'a', 'c', 'k', 's', 'p', 'a', 'c', 'e'],
        "delete"@ == seq!['d', 'e', 'l', 'e', 't', 'e'],
        "down"@ == seq!['d', 'o', 'w', 'n'],
        "end"@ == seq!['e', 'n', 'd'],
        "enter"@ == seq!['e', 'n', 't', 'e', 'r'],
        "esc"@ == seq!['e', 's', 'c'],
        "escape"@ == seq!['e', 's', 'c', 'a', 'p', 'e'],
        "home"@ == seq!['h', 'o', 'm', 'e'],
        "left"@ == seq!['l', 'e', 'f', 't'],
        "pagedown"@ == seq!['p', 'a', 'g', 'e', 'd', 'o', 'w', 'n'],
        "pageup"@ == seq!['p', 'a', 'g', 'e', 'u', 'p'],
        "pgdn"@ == seq!['p', 'g', 'd', 'n'],
        "pgup"@ == seq!['p', 'g', 'u', 'p'],
        "return"@ == seq!['r', 'e', 't', 'u', 'r', 'n'],
        "right"@ == seq!['r', 'i', 'g', 'h', 't'],
        "space"@ == seq!['s', 'p', 'a', 'c', 'e'],
        "tab"@ == seq!['t', 'a', 'b'],
        "up"@ == seq!['u', 'p'],
{
    reveal_strlit("Backspace");
    assert("Backspace"@ =~= seq!['B', 'a', 'c', 'k', 's', 'p', 'a', 'c', 'e']);
    reveal_strlit("Delete");
    assert("Delete"@ =~= seq!['D', 'e', 'l', 'e', 't', 'e']);
    reveal_strlit("Down");
    assert("Down"@ =~= seq!['D', 'o', 'w', 'n']);
    reveal_strlit("End");
    assert("End"@ =~= seq!['E', 'n', 'd']);
    reveal_strlit("Enter");
    assert("Enter"@ =~= seq!['E', 'n', 't', 'e', 'r']);
    reveal_strlit("Esc");
    assert("Esc"@ =~= seq!['E', 's', 'c']);
    reveal_strlit("Escape");
    assert("Escape"@ =~= seq!['E', 's', 'c', 'a', 'p', 'e']);
    reveal_strlit("Home");
    assert("Home"@ =~= seq!['H', 'o', 'm', 'e']);
    reveal_strlit("Left");
    assert("Left"@ =~= seq!['L', 'e', 'f', 't']);
    reveal_strlit("PageDown");
    assert("PageDown"@ =~= seq!['P', 'a', 'g', 'e', 'D', 'o', 'w', 'n']);
    reveal_strlit("PageUp");
    assert("PageUp"@ =~= seq!['P', 'a', 'g', 'e', 'U', 'p']);
    reveal_strlit("Return");
    assert("Return"@ =~= seq!['R', 'e', 't', 'u', 'r', 'n']);
    reveal_strlit("Right");
    assert("Right"@ =~= seq!['R', 'i', 'g', 'h', 't']);
    reveal_strlit("Space");
    assert("Space"@ =~= seq!['S', 'p', 'a', 'c', 'e']);
    reveal_strlit("Tab");
    assert("Tab"@ =~= seq!['T', 'a', 'b']);
    reveal_strlit("Up");
    assert("Up"@ =~= seq!['U', 'p']);
    reveal_strlit("backspace");
    assert("backspace"@ =~= seq!['b', 'a', 'c', 'k', 's', 'p', 'a', 'c', 'e']);
    reveal_strlit("delete");
    assert("delete"@ =~= seq!['d', 'e', 'l', 'e', 't', 'e']);
    reveal_strlit("down");
    assert("down"@ =~= seq!['d', 'o', 'w', 'n']);
    reveal_strlit("end");
    assert("end"@ =~= seq!['e', 'n', 'd']);
    reveal_strlit("enter");
    assert("enter"@ =~= seq!['e', 'n', 't', 'e', 'r']);
    reveal_strlit("esc");
    assert("esc"@ =~= seq!['e', 's', 'c']);
    reveal_strlit("escape");
    assert("escape"@ =~= seq!['e', 's', 'c', 'a', 'p', 'e']);
    reveal_strlit("home");
    assert("home"@ =~= seq!['h', 'o', 'm', 'e']);
    reveal_strlit("left");
    assert("left"@ =~= seq!['l', 'e', 'f', 't']);
    reveal_strlit("pagedown");
    assert("pagedown"@ =~= seq!['p', 'a', 'g', 'e', 'd', 'o', 'w', 'n']);
    reveal_strlit("pageup");
    assert("pageup"@ =~= seq!['p', 'a', 'g', 'e', 'u', 'p']);
    reveal_strlit("pgdn");
    assert("pgdn"@ =~= seq!['p', 'g', 'd', 'n']);
    reveal_strlit("pgup");
    assert("pgup"@ =~= seq!['p', 'g', 'u', 'p']);
    reveal_strlit("return");
    assert("return"@ =~= seq!['r', 'e', 't', 'u', 'r', 'n']);
    reveal_strlit("right");
    assert("right"@ =~= seq!['r', 'i', 'g', 'h', 't']);
    reveal_strlit("space");
    assert("space"@ =~= seq!['s', 'p', 'a', 'c', 'e']);
    reveal_strlit("tab");
    assert("tab"@ =~= seq!['t', 'a', 'b']);
    reveal_strlit("up");
    assert("up"@ =~= seq!['u', 'p']);
}

proof fn lemma_mod_words()
    ensures
        "ctrl"@ == seq!['c', 't', 'r', 'l'],
        "control"@ == seq!['c', 'o', 'n', 't', 'r', 'o', 'l'],
        "alt"@ == seq!['a', 'l', 't'],
        "option"@ == seq!['o', 'p', 't', 'i', 'o', 'n'],
        "opt"@ == seq!['o', 'p', 't'],
        "meta"@ == seq!['m', 'e', 't', 'a'],
        "shift"@ == seq!['s', 'h', 'i', 'f', 't'],
{
    reveal_strlit("ctrl");
    assert("ctrl"@ =~= seq!['c', 't', 'r', 'l']);
    reveal_strlit("control");
    assert("control"@ =~= seq!['c', 'o', 'n', 't', 'r', 'o', 'l']);
    reveal_strlit("alt");
    assert("alt"@ =~= seq!['a', 'l', 't']);
    reveal_strlit("option");
    assert("option"@ =~= seq!['o', 'p', 't', 'i', 'o', 'n']);
    reveal_strlit("opt");
    assert("opt"@ =~= seq!['o', 'p', 't']);
    reveal_strlit("meta");
    assert("meta"@ =~= seq!['m', 'e', 't', 'a']);
    reveal_strlit("shift");
    assert("shift"@ =~= seq!['s', 'h', 'i', 'f', 't']);
}

fn lower_chars(v: &Vec<char>) -> (r: Vec<char>)
    ensures
        r@ == lower(v@),
{
    let mut r: Vec<char> = Vec::new();
    let mut i: usize = 0;
    while i < v.len()
        invariant
            i <= v@.len(),
            r@ == lower(v@.subrange(0, i as int)),
        decreases v@.len() - i,
    {
        r.push(to_ascii_lower(v[i]));
        i += 1;
        assert(r@ =~= lower(v@.subrange(0, i as int)));
    }
    assert(v@.subrange(0, v@.len() as int) =~= v@);
    r
}

fn error_with(prefix: &str, w: &Vec<char>) -> (e: String)
    ensures
        e@ == prefix@ + w@,
{
    let mut e = string_of(prefix);
    let tail = crate::text::string_from_chars(w, 0, w.len());
    assert(w@.subrange(0, w@.len() as int) =~= w@);
    e.append(tail.as_str());
    e
}

fn apply_mod_exec(m: Mods, word: &Vec<char>) -> (r: Result<Mods, String>)
    ensures
        match apply_mod(m, word@) {
            Ok(m2) => r == Ok::<Mods, String>(m2),
            Err(e) => r matches Err(x) && x@ == e,
        },
{
    proof {
        lemma_mod_words();
    }
    let w = lower_chars(word);
    if is_word(&w, "ctrl") || is_word(&w, "control") {
        Ok(Mods { control: true, ..m })
    } else if is_word(&w, "alt") || is_word(&w, "option") || is_word(&w, "opt") || is_word(&w, "meta") {
        Ok(Mods { alt: true, ..m })
    } else if is_word(&w, "shift") {
        Ok(Mods { shift: true, ..m })
    } else {
        proof {
            reveal_strlit("unknown modifier: ");
            assert("unknown modifier: "@ =~= seq!['u', 'n', 'k', 'n', 'o', 'w', 'n', ' ', 'm', 'o', 'd', 'i', 'f', 'i', 'e', 'r', ':', ' ']);
        }
        Err(error_with("unknown modifier: ", &w))
    }
}

/// The value of the digits `v[from..]`, if they are all digits and the
/// value is below 256.
fn parse_u8_exec(v: &Vec<char>, from: usize) -> (r: Option<u8>)
    requires
        from <= v@.len(),
    ensures
        r == parse_u8(v@.subrange(from as int, v@.len() as int)),
{
    let ghost d = v@.subrange(from as int, v@.len() as int);
    if from == v.len() {
        return None;
    }
    let mut val: u32 = 0;
    let mut i: usize = from;
    let mut big = false;
    while i < v.len()
        invariant
            from <= i <= v@.len(),
            d == v@.subrange(from as int, v@.len() as int),
            !big ==> digits_value(v@.subrange(from as int, i as int)) == Some(val as nat) && val < 256,
            big ==> (digits_value(v@.subrange(from as int, i as int)) matches Some(x) && x >= 256),
        decreases v@.len() - i,
    {
        let c = v[i];
        assert(v@.subrange(from as int, i + 1).drop_last() =~= v@.subrange(from as int, i as int));
        if c < '0' || c > '9' {
            proof {
                lemma_digits_stop(v@.subrange(from as int, v@.len() as int), (i - from) as int);
                assert(v@.subrange(from as int, v@.len() as int).subrange(0, i - from + 1) =~= v@.subrange(from as int, i + 1));
            }
            return None;
        }
        let dg = (c as u32) - ('0' as u32);
        if big {
            proof {
                let x = digits_value(v@.subrange(from as int, i as int)).unwrap();
                assert(digits_value(v@.subrange(from as int, i + 1)) == Some((x * 10 + dg) as nat));
            }
        } else {
            let nv = val * 10 + dg;
            if nv >= 256 {
                big = true;
            } else {
                val = nv;
            }
        }
        i += 1;
    }
    if big {
        None
    } else {
        Some(val as u8)
    }
}

/// A non-digit ends any digit run: the value of a sequence with a
/// non-digit at `k` is none.
proof fn lemma_digits_stop(s: Seq<char>, k: int)
    requires
        0 <= k < s.len(),
        !('0' <= s[k] && s[k] <= '9'),
    ensures
        digits_value(s) is None,
        digits_value(s.subrange(0, k + 1)) is None,
    decreases s.len(),
{
    assert(s.subrange(0, k + 1).drop_last() =~= s.subrange(0, k));
    if k < s.len() - 1 {
        lemma_digits_stop(s.drop_last(), k);
        assert(s.drop_last().subrange(0, k + 1) =~= s.subrange(0, k + 1));
    }
}

fn parse_key_word_exec(k: &Vec<char>) -> (r: Result<Key, String>)
    ensures
        match parse_key_word(k@) {
            Ok(key) => r == Ok::<Key, String>(key),
            Err(e) => r matches Err(x) && x@ == e,
        },
{
    proof {
        lemma_key_names();
    }
    if let Some(key) = named_key_exec(k) {
        return Ok(key);
    }
    if k.len() > 1 && (k[0] == 'F' || k[0] == 'f') {
        proof {
            assert(k@.drop_first() =~= k@.subrange(1, k@.len() as int));
        }
        return match parse_u8_exec(k, 1) {
            Some(n) => Ok(Key::F(n)),
            None => {
                proof {
                    reveal_strlit("bad function-key spec: ");
                    assert("bad function-key spec: "@ =~= seq!['b', 'a', 'd', ' ', 'f', 'u', 'n', 'c', 't', 'i', 'o', 'n', '-', 'k', 'e', 'y', ' ', 's', 'p', 'e', 'c', ':', ' ']);
                }
                Err(error_with("bad function-key spec: ", k))
            },
        };
    }
    if k.len() == 1 {
        return Ok(Key::Char(k[0]));
    }
    proof {
        reveal_strlit("unknown key: ");
        assert("unknown key: "@ =~= seq!['u', 'n', 'k', 'n', 'o', 'w', 'n', ' ', 'k', 'e', 'y', ':', ' ']);
    }
    Err(error_with("unknown key: ", k))
}

pub open spec fn views(parts: Seq<Vec<char>>) -> Seq<Seq<char>> {
    parts.map_values(|p: Vec<char>| p@)
}

/// `s` split at every `c`.
pub(crate) fn split_chars(s: &Vec<char>, c: char) -> (parts: Vec<Vec<char>>)
    ensures
        views(parts@) == split_on(s@, c),
{
    let mut parts: Vec<Vec<char>> = Vec::new();
    parts.push(Vec::new());
    assert(views(parts@) =~= split_on(s@.subrange(0, 0), c));
    let mut i: usize = 0;
    while i < s.len()
        invariant
            i <= s@.len(),
            parts@.len() >= 1,
            views(parts@) == split_on(s@.subrange(0, i as int), c),
        decreases s@.len() - i,
    {
        let ghost before = views(parts@);
        assert(s@.subrange(0, i + 1).drop_last() =~= s@.subrange(0, i as int));
        if s[i] == c {
            parts.push(Vec::new());
            assert(views(parts@) =~= before.push(Seq::empty()));
        } else {
            let mut last = parts.pop().unwrap();
            last.push(s[i]);
            parts.push(last);
            assert(views(parts@) =~= before.update(before.len() - 1, before.last().push(s@[i as int])));
        }
        i += 1;
    }
    assert(s@.subrange(0, s@.len() as int) =~= s@);
    parts
}

pub(crate) fn trim_chars(v: &Vec<char>) -> (r: Vec<char>)
    ensures
        r@ == spec_trim(v@),
{
    let s = crate::text::string_from_chars(v, 0, v.len());
    assert(v@.subrange(0, v@.len() as int) =~= v@);
    let t = crate::text::trim(s.as_str());
    crate::text::chars_of(t.as_str())
}

impl KeyChord {
    /// A key with no modifier.
    pub fn plain(code: Key) -> (c: KeyChord)
        ensures
            c.code == code,
            c.mods == Mods::spec_none(),
    {
        KeyChord { code, mods: Mods::none() }
    }

    /// Ctrl and a character.
    pub fn ctrl(ch: char) -> (c: KeyChord)
        ensures
            c.code == Key::Char(ch),
            c.mods == (Mods { control: true, ..Mods::spec_none() }),
    {
        KeyChord { code: Key::Char(ch), mods: Mods { control: true, ..Mods::none() } }
    }

    /// The same key with the same Ctrl, Alt and Shift (other modifiers
    /// do not count).
    pub fn matches(&self, key: &KeyPress) -> (b: bool)
        ensures
            b == (self.code == key.code && same_cas(self.mods, key.mods)),
    {
        self.code == key.code && self.mods.control == key.mods.control && self.mods.alt == key.mods.alt
            && self.mods.shift == key.mods.shift
    }

    /// The chord's text, such as `Ctrl+q`.
    pub fn to_display_string(&self) -> (s: String)
        ensures
            s@ == chord_text(*self),
    {
        let mut s = String::new();
        if self.mods.control {
            s.append("Ctrl+");
            proof {
                reveal_strlit("Ctrl+");
            }
        }
        if self.mods.alt {
            s.append("Alt+");
            proof {
                reveal_strlit("Alt+");
            }
        }
        if self.mods.shift {
            s.append("Shift+");
            proof {
                reveal_strlit("Shift+");
            }
        }
        push_key_name(&mut s, self.code);
        assert(s@ =~= chord_text(*self));
        s
    }

    /// Parse a chord's text: `+`-separated words (trimmed), modifiers
    /// first (`ctrl`/`control`, `alt`/`option`/`opt`/`meta`, `shift`, in
    /// any case), the key last.
    pub fn parse(text: &str) -> (r: Result<KeyChord, String>)
        ensures
            match spec_parse_chord(text@) {
                Ok(c) => r == Ok::<KeyChord, String>(c),
                Err(e) => r matches Err(x) && x@ == e,
            },
    {
        let chars = crate::text::chars_of(text);
        let raw = split_chars(&chars, '+');
        proof {
            lemma_split_nonempty(text@, '+');
        }
        let ghost parts = split_on(text@, '+').map_values(|p: Seq<char>| spec_trim(p));
        let n = raw.len();
        let mut mods = Mods::none();
        let mut i: usize = 0;
        while i + 1 < n
            invariant
                i + 1 <= n,
                n == raw@.len(),
                views(raw@) == split_on(text@, '+'),
                parts == split_on(text@, '+').map_values(|p: Seq<char>| spec_trim(p)),
                parse_mods(parts.subrange(0, i as int)) == Ok::<Mods, Seq<char>>(mods),
            decreases n - i,
        {
            let w = trim_chars(&raw[i]);
            assert(w@ == parts[i as int]);
            assert(parts.subrange(0, i + 1).drop_last() =~= parts.subrange(0, i as int));
            assert(parts.subrange(0, i + 1).last() == parts[i as int]);
            match apply_mod_exec(mods, &w) {
                Ok(m2) => {
                    mods = m2;
                },
                Err(e) => {
                    proof {
                        lemma_parse_mods_error(parts.drop_last(), (i + 1) as int);
                        assert(parts.drop_last().subrange(0, i + 1) =~= parts.subrange(0, i + 1));
                    }
                    return Err(e);
                },
            }
            i += 1;
        }
        assert(parts.subrange(0, i as int) =~= parts.drop_last());
        let key_word = trim_chars(&raw[n - 1]);
        assert(key_word@ == parts.last());
        match parse_key_word_exec(&key_word) {
            Ok(k) => Ok(KeyChord { code: k, mods }),
            Err(e) => Err(e),
        }
    }
}

/// An error among the first `k` words is the error of all of them.
proof fn lemma_parse_mods_error(ws: Seq<Seq<char>>, k: int)
    requires
        0 <= k <= ws.len(),
        parse_mods(ws.subrange(0, k)) is Err,
    ensures
        parse_mods(ws) == parse_mods(ws.subrange(0, k)),
    decreases ws.len() - k,
{
    if k < ws.len() {
        assert(ws.subrange(0, k + 1).drop_last() =~= ws.subrange(0, k));
        lemma_parse_mods_error(ws, k + 1);
    } else {
        assert(ws.subrange(0, k) =~= ws);
    }
}

impl core::str::FromStr for KeyChord {
    type Err = String;

    fn from_str(s: &str) -> (r: Result<KeyChord, String>)
        ensures
            match spec_parse_chord(s@) {
                Ok(c) => r == Ok::<KeyChord, String>(c),
                Err(e) => r matches Err(x) && x@ == e,
            },
    {
        KeyChord::parse(s)
    }
}

/// The configurable bindings of the main view.
#[derive(Debug, Clone, Copy, PartialEq, Eq, Structural)]
pub struct Keymap {
    pub quit: KeyChord,
    pub help: KeyChord,
    pub refresh: KeyChord,
    pub add_repo: KeyChord,
    pub remove_repo: KeyChord,
    pub new_worktree: KeyChord,
    pub remove_worktree: KeyChord,
}

pub open spec fn plain_char(c: char) -> KeyChord {
    KeyChord { code: Key::Char(c), mods: Mods::spec_none() }
}

impl Default for Keymap {
    /// `q` quit, `?` help, `r` refresh, `a` / `R` add / remove a
    /// repository, `w` / `W` new / remove a worktree.
    fn default() -> (k: Self)
        ensures
            k.quit == plain_char('q'),
            k.help == plain_char('?'),
            k.refresh == plain_char('r'),
            k.add_repo == plain_char('a'),
            k.remove_repo == plain_char('R'),
            k.new_worktree == plain_char('w'),
            k.remove_worktree == plain_char('W'),
    {
        Keymap {
            quit: KeyChord::plain(Key::Char('q')),
            help: KeyChord::plain(Key::Char('?')),
            refresh: KeyChord::plain(Key::Char('r')),
            add_repo: KeyChord::plain(Key::Char('a')),
            remove_repo: KeyChord::plain(Key::Char('R')),
            new_worktree: KeyChord::plain(Key::Char('w')),
            remove_worktree: KeyChord::plain(Key::Char('W')),
        }
    }
}

/// Splitting at `c` around a `c`: the pieces of each side.
proof fn lemma_split_at_sep(a: Seq<char>, c: char, b: Seq<char>)
    ensures
        split_on(a + seq![c] + b, c) == split_on(a, c) + split_on(b, c),
    decreases b.len(),
{
    lemma_split_nonempty(a, c);
    if b.len() == 0 {
        assert(a + seq![c] + b =~= a.push(c));
        assert((a + seq![c] + b).drop_last() =~= a);
        assert(split_on(a, c).push(Seq::empty()) =~= split_on(a, c) + seq![Seq::<char>::empty()]);
    } else {
        let b0 = b.drop_last();
        lemma_split_at_sep(a, c, b0);
        lemma_split_nonempty(b0, c);
        assert((a + seq![c] + b).drop_last() =~= a + seq![c] + b0);
        let pa = split_on(a, c);
        let pb = split_on(b0, c);
        if b.last() == c {
            assert((pa + pb).push(Seq::empty()) =~= pa + pb.push(Seq::empty()));
        } else {
            let x = b.last();
            assert((pa + pb).update((pa + pb).len() - 1, (pa + pb).last().push(x)) =~= pa + pb.update(pb.len() - 1, pb.last().push(x)));
        }
    }
}

/// Text without `c` is one piece.
proof fn lemma_split_whole(s: Seq<char>, c: char)
    requires
        !s.contains(c),
    ensures
        split_on(s, c) == seq![s],
    decreases s.len(),
{
    if s.len() > 0 {
        assert(!s.drop_last().contains(c)) by {
            if s.drop_last().contains(c) {
                let i = choose|i: int| 0 <= i < s.drop_last().len() && s.drop_last()[i] == c;
                assert(s[i] == c);
            }
        }
        lemma_split_whole(s.drop_last(), c);
        assert(s.last() != c) by {
            assert(s[s.len() - 1] == s.last());
        }
        assert(s.drop_last().push(s.last()) =~= s);
        assert(seq![s.drop_last()].update(0, s.drop_last().push(s.last())) =~= seq![s]);
    } else {
        assert(s =~= Seq::<char>::empty());
    }
}

/// Text that neither starts nor ends with whitespace trims to itself.
proof fn lemma_trim_keeps(s: Seq<char>)
    requires
        s.len() > 0,
        !crate::text::is_ws(s[0]),
        !crate::text::is_ws(s.last()),
    ensures
        spec_trim(s) == s,
{
    assert(crate::text::trim_start_index(s) == 0);
    assert(crate::text::trim_end_index(s) == s.len());
    assert(s.subrange(0, s.len() as int) =~= s);
}

/// The digits of `n` read back as `n`.
proof fn lemma_decimal_value(n: nat)
    ensures
        decimal(n).len() > 0,
        digits_value(decimal(n)) == Some(n),
        forall|i: int| 0 <= i < decimal(n).len() ==> '0' <= #[trigger] decimal(n)[i] && decimal(n)[i] <= '9',
    decreases n,
{
    assert('0' as nat == 48);
    if n < 10 {
        lemma_digit(n);
        assert(decimal(n).drop_last() =~= Seq::<char>::empty());
        assert(decimal(n).last() == crate::text::digit(n));
        assert(digits_value(decimal(n).drop_last()) == Some(0nat));
        assert(digits_value(decimal(n)) == Some(n));
    } else {
        lemma_decimal_value(n / 10);
        lemma_digit(n % 10);
        assert(decimal(n).drop_last() =~= decimal(n / 10));
        assert(decimal(n).last() == crate::text::digit(n % 10));
        assert(forall|i: int| 0 <= i < decimal(n).len() - 1 ==> decimal(n)[i] == decimal(n / 10)[i]);
        assert((n / 10) * 10 + n % 10 == n);
        assert(digits_value(decimal(n)) == Some(n));
    }
}

proof fn lemma_digit(d: nat)
    requires
        d < 10,
    ensures
        crate::text::digit(d) as nat == d + 48,
        '0' <= crate::text::digit(d) && crate::text::digit(d) <= '9',
{
}

/// A chord whose text parses back to it: no modifier but Ctrl, Alt and
/// Shift held, and a key whose name parses (a character other than `+`
/// and whitespace, a function key, or a key of the name table).
pub open spec fn round_trips(c: KeyChord) -> bool {
    &&& !c.mods.super_key && !c.mods.hyper && !c.mods.meta
    &&& match c.code {
        Key::Char(ch) => ch != '+' && !crate::text::is_ws(ch),
        Key::F(_) | Key::Enter | Key::Esc | Key::Up | Key::Down | Key::Left | Key::Right | Key::Home | Key::End
        | Key::PageUp | Key::PageDown | Key::Backspace | Key::Delete | Key::Tab => true,
        _ => false,
    }
}

/// The modifier words of a chord's text, in order.
pub open spec fn mod_words(m: Mods) -> Seq<Seq<char>> {
    (if m.control { seq![seq!['C', 't', 'r', 'l']] } else { Seq::empty() }) + (if m.alt {
        seq![seq!['A', 'l', 't']]
    } else {
        Seq::empty()
    }) + (if m.shift { seq![seq!['S', 'h', 'i', 'f', 't']] } else { Seq::empty() })
}

/// Each modifier word is followed by `+`.
pub open spec fn joined_plus(ws: Seq<Seq<char>>) -> Seq<char>
    decreases ws.len(),
{
    if ws.len() == 0 {
        Seq::empty()
    } else {
        joined_plus(ws.drop_last()) + ws.last() + seq!['+']
    }
}

proof fn lemma_split_joined(ws: Seq<Seq<char>>, k: Seq<char>)
    requires
        forall|i: int| 0 <= i < ws.len() ==> !(#[trigger] ws[i]).contains('+'),
        !k.contains('+'),
    ensures
        split_on(joined_plus(ws) + k, '+') == ws.push(k),
    decreases ws.len(),
{
    if ws.len() == 0 {
        assert(joined_plus(ws) + k =~= k);
        lemma_split_whole(k, '+');
        assert(ws.push(k) =~= seq![k]);
    } else {
        let w0 = ws.drop_last();
        let w = ws.last();
        assert(forall|i: int| 0 <= i < w0.len() ==> w0[i] == ws[i]);
        lemma_split_joined(w0, w);
        assert(joined_plus(w0) + w =~= joined_plus(w0) + w);
        assert(joined_plus(ws) + k =~= (joined_plus(w0) + w) + seq!['+'] + k);
        lemma_split_at_sep(joined_plus(w0) + w, '+', k);
        lemma_split_whole(k, '+');
        assert(w0.push(w) + seq![k] =~= ws.push(k));
        assert(w0.push(w) =~= ws);
    }
}

proof fn lemma_lower_words()
    ensures
        lower(seq!['C', 't', 'r', 'l']) == seq!['c', 't', 'r', 'l'],
        lower(seq!['A', 'l', 't']) == seq!['a', 'l', 't'],
        lower(seq!['S', 'h', 'i', 'f', 't']) == seq!['s', 'h', 'i', 'f', 't'],
{
    assert(lower(seq!['C', 't', 'r', 'l']) =~= seq!['c', 't', 'r', 'l']);
    assert(lower(seq!['A', 'l', 't']) =~= seq!['a', 'l', 't']);
    assert(lower(seq!['S', 'h', 'i', 'f', 't']) =~= seq!['s', 'h', 'i', 'f', 't']);
}

/// Parsing one more modifier word.
proof fn lemma_parse_mods_push(ws: Seq<Seq<char>>, w: Seq<char>)
    ensures
        parse_mods(ws.push(w)) == match parse_mods(ws) {
            Err(e) => Err(e),
            Ok(m) => apply_mod(m, w),
        },
{
    assert(ws.push(w).drop_last() =~= ws);
}

proof fn lemma_parse_mod_words(m: Mods)
    requires
        !m.super_key && !m.hyper && !m.meta,
    ensures
        parse_mods(mod_words(m)) == Ok::<Mods, Seq<char>>(m),
{
    lemma_lower_words();
    let ctrl = seq!['C', 't', 'r', 'l'];
    let alt = seq!['A', 'l', 't'];
    let shift = seq!['S', 'h', 'i', 'f', 't'];
    let w0 = Seq::<Seq<char>>::empty();
    let w1 = if m.control { w0.push(ctrl) } else { w0 };
    let w2 = if m.alt { w1.push(alt) } else { w1 };
    let w3 = if m.shift { w2.push(shift) } else { w2 };
    assert(mod_words(m) =~= w3);
    let m1 = Mods { control: m.control, ..Mods::spec_none() };
    let m2 = Mods { alt: m.alt, ..m1 };
    let m3 = Mods { shift: m.shift, ..m2 };
    assert(parse_mods(w0) == Ok::<Mods, Seq<char>>(Mods::spec_none()));
    if m.control {
        lemma_parse_mods_push(w0, ctrl);
    }
    assert(parse_mods(w1) == Ok::<Mods, Seq<char>>(m1));
    if m.alt {
        lemma_parse_mods_push(w1, alt);
    }
    assert(parse_mods(w2) == Ok::<Mods, Seq<char>>(m2));
    if m.shift {
        lemma_parse_mods_push(w2, shift);
    }
    assert(parse_mods(w3) == Ok::<Mods, Seq<char>>(m3));
    assert(m3 == m);
}

/// The name of a round-tripping key has no `+`, trims to itself and
/// parses back to the key.
proof fn lemma_key_word(c: KeyChord)
    requires
        round_trips(c),
    ensures
        !key_name(c.code).contains('+'),
        spec_trim(key_name(c.code)) == key_name(c.code),
        parse_key_word(key_name(c.code)) == Ok::<Key, Seq<char>>(c.code),
{
    let k = key_name(c.code);
    match c.code {
        Key::F(n) => {
            lemma_decimal_value(n as nat);
            let d = decimal(n as nat);
            assert(k =~= seq!['F'] + d);
            assert(k.drop_first() =~= d);
            assert(k.last() == d[d.len() - 1]);
            lemma_trim_keeps(k);
            if k.contains('+') {
                let i = choose|i: int| 0 <= i < k.len() && k[i] == '+';
                assert(d[i - 1] == '+');
            }
            assert(named_key(k).is_none());
        },
        Key::Char(ch) => {
            lemma_trim_keeps(k);
            assert(named_key(k).is_none());
        },
        Key::Enter => { lemma_trim_keeps(k); },
        Key::Esc => { lemma_trim_keeps(k); },
        Key::Up => { lemma_trim_keeps(k); },
        Key::Down => { lemma_trim_keeps(k); },
        Key::Left => { lemma_trim_keeps(k); },
        Key::Right => { lemma_trim_keeps(k); },
        Key::Home => { lemma_trim_keeps(k); },
        Key::End => { lemma_trim_keeps(k); },
        Key::PageUp => { lemma_trim_keeps(k); },
        Key::PageDown => { lemma_trim_keeps(k); },
        Key::Backspace => { lemma_trim_keeps(k); },
        Key::Delete => { lemma_trim_keeps(k); },
        Key::Tab => { lemma_trim_keeps(k); },
        _ => {},
    }
}

/// A chord's text, when it round-trips, parses back to the chord.
pub proof fn law_chord_text_parses_back(c: KeyChord)
    requires
        round_trips(c),
    ensures
        spec_parse_chord(chord_text(c)) == Ok::<KeyChord, Seq<char>>(c),
{
    let ws = mod_words(c.mods);
    let k = key_name(c.code);
    reveal_with_fuel(joined_plus, 4);
    let a = if c.mods.control { seq!['C', 't', 'r', 'l', '+'] } else { Seq::<char>::empty() };
    let b = if c.mods.alt { seq!['A', 'l', 't', '+'] } else { Seq::<char>::empty() };
    let d = if c.mods.shift { seq!['S', 'h', 'i', 'f', 't', '+'] } else { Seq::<char>::empty() };
    assert(joined_plus(ws) =~= a + b + d);
    assert(chord_text(c) =~= joined_plus(ws) + k);
    lemma_key_word(c);
    assert forall|i: int| 0 <= i < ws.len() implies !(#[trigger] ws[i]).contains('+') && spec_trim(ws[i]) == ws[i] by {
        lemma_trim_keeps(ws[i]);
    }
    lemma_split_joined(ws, k);
    let parts = split_on(chord_text(c), '+').map_values(|p: Seq<char>| spec_trim(p));
    assert(parts =~= ws.push(k));
    assert(parts.drop_last() =~= ws);
    lemma_parse_mod_words(c.mods);
}

/// Is this the character `c` with Ctrl held?
pub open spec fn is_ctrl(k: KeyPress, c: char) -> bool {
    k.mods.control && k.code == Key::Char(c)
}

fn ctrl_char(k: KeyPress, c: char) -> (b: bool)
    ensures
        b == is_ctrl(k, c),
{
    k.mods.control && k.code == Key::Char(c)
}

/// What the key router needs to know of the screen: which zone has the
/// keyboard, what the main pane shows, and whether the active worktree
/// has a terminal (and in which mode its tabs are).
#[derive(Debug, Clone, Copy, PartialEq, Eq, Structural)]
pub struct KeyContext {
    pub focus: FocusZone,
    pub view: MainView,
    pub has_terminal: bool,
    pub mode: TerminalMode,
}

/// Where a key press goes.
#[derive(Debug)]
pub enum KeyRoute {
    /// A message for `update`.
    Message(AppMessage),
    /// To the shell of the active terminal (see `key_to_pty_bytes`).
    Terminal(KeyPress),
}

/// Sidebar keys: `j`/`k` (arrows) move, `h`/`l` collapse and expand,
/// Enter activates, `a`/`R` add and remove a repository, `w`/`W` make and
/// remove a worktree, `r` refreshes, `?` help, `q` quits.
pub open spec fn sidebar_keys(k: KeyPress) -> AppMessage {
    match k.code {
        Key::Char('q') => AppMessage::Quit,
        Key::Char('?') => AppMessage::ToggleHelp,
        Key::Char('j') | Key::Down => AppMessage::MoveCursor(Direction::Down),
        Key::Char('k') | Key::Up => AppMessage::MoveCursor(Direction::Up),
        Key::Char('h') | Key::Left => AppMessage::CollapseOrAscend,
        Key::Char('l') | Key::Right => AppMessage::ExpandOrDescend,
        Key::Enter => AppMessage::Activate,
        Key::Char('a') => AppMessage::OpenAddRepo,
        Key::Char('R') => AppMessage::OpenConfirmRemoveRepo,
        Key::Char('w') => AppMessage::OpenNewWorktree,
        Key::Char('W') => AppMessage::OpenConfirmRemoveWorktree,
        Key::Char('r') => AppMessage::RefreshAll,
        _ => AppMessage::NoOp,
    }
}

/// Diff keys: `j`/`k` pick a file, Tab switches list and content,
/// `J`/`K` scroll the content, `s`/`u` stage and unstage, `m` switches
/// local and branch mode.
pub open spec fn diff_keys(k: KeyPress) -> AppMessage {
    match k.code {
        Key::Char('j') | Key::Down => AppMessage::DiffCursorDown,
        Key::Char('k') | Key::Up => AppMessage::DiffCursorUp,
        Key::Tab => AppMessage::DiffToggleFocus,
        Key::Char('J') => AppMessage::DiffContentDown,
        Key::Char('K') => AppMessage::DiffContentUp,
        Key::Char('s') => AppMessage::StageFocused,
        Key::Char('u') => AppMessage::UnstageFocused,
        Key::Char('m') => AppMessage::ToggleDiffMode,
        Key::Char('?') => AppMessage::ToggleHelp,
        _ => AppMessage::NoOp,
    }
}

/// Scrollback keys: `j`/`k` one line, PageUp/PageDown twenty, `g`/`G`
/// top and bottom, `i`/`q`/Esc back to the shell.
pub open spec fn scrollback_keys(k: KeyPress) -> AppMessage {
    match k.code {
        Key::Char('j') | Key::Down => AppMessage::ScrollDown,
        Key::Char('k') | Key::Up => AppMessage::ScrollUp,
        Key::PageUp => AppMessage::ScrollPageUp,
        Key::PageDown => AppMessage::ScrollPageDown,
        Key::Char('g') => AppMessage::ScrollTop,
        Key::Char('G') => AppMessage::ScrollBottom,
        Key::Char('i') | Key::Char('q') | Key::Esc => AppMessage::ToggleScrollback,
        Key::Char('?') => AppMessage::ToggleHelp,
        _ => AppMessage::NoOp,
    }
}

/// Terminal tab keys, taken before the shell sees them: Ctrl+t new,
/// Ctrl+w close, Ctrl+h / Ctrl+l previous / next, Ctrl+\\ scrollback,
/// Ctrl+d diff view.
pub open spec fn tab_keys(k: KeyPress) -> Option<AppMessage> {
    if is_ctrl(k, 't') {
        Some(AppMessage::NewTerminal)
    } else if is_ctrl(k, 'w') {
        Some(AppMessage::CloseTerminal)
    } else if is_ctrl(k, 'h') {
        Some(AppMessage::PrevTab)
    } else if is_ctrl(k, 'l') {
        Some(AppMessage::NextTab)
    } else if is_ctrl(k, '\\') {
        Some(AppMessage::ToggleScrollback)
    } else if is_ctrl(k, 'd') {
        Some(AppMessage::ToggleDiffView)
    } else {
        None
    }
}

/// The main pane's keys: the diff keys (Ctrl+d leaves the diff); in
/// scrollback the scrollback keys; otherwise the tab keys first, then the
/// shell takes the key when there is one, else Enter starts a shell.
/// Ctrl+c quits unless a shell takes it.
pub open spec fn main_keys(k: KeyPress, ctx: KeyContext) -> KeyRoute {
    if ctx.view == MainView::Diff {
        if is_ctrl(k, 'd') {
            KeyRoute::Message(AppMessage::ToggleDiffView)
        } else if is_ctrl(k, 'c') {
            KeyRoute::Message(AppMessage::Quit)
        } else {
            KeyRoute::Message(diff_keys(k))
        }
    } else if ctx.has_terminal && ctx.mode == TerminalMode::Scrollback {
        if is_ctrl(k, 'c') {
            KeyRoute::Message(AppMessage::Quit)
        } else {
            KeyRoute::Message(scrollback_keys(k))
        }
    } else {
        match tab_keys(k) {
            Some(m) => KeyRoute::Message(m),
            None => if ctx.has_terminal {
                KeyRoute::Terminal(k)
            } else if is_ctrl(k, 'c') {
                KeyRoute::Message(AppMessage::Quit)
            } else {
                KeyRoute::Message(
                    match k.code {
                        Key::Enter => AppMessage::NewTerminal,
                        Key::Char('?') => AppMessage::ToggleHelp,
                        _ => AppMessage::NoOp,
                    },
                )
            },
        }
    }
}

pub open spec fn help_keys(k: KeyPress) -> AppMessage {
    match k.code {
        Key::Char('?') | Key::Esc => AppMessage::CloseModal,
        Key::Char('j') | Key::Down => AppMessage::HelpScrollDown,
        Key::Char('k') | Key::Up => AppMessage::HelpScrollUp,
        _ => AppMessage::NoOp,
    }
}

/// Editing keys of a text input: Backspace, Delete, arrows, Home, End,
/// and characters typed without Ctrl.
pub open spec fn edit_keys(k: KeyPress) -> AppMessage {
    match k.code {
        Key::Backspace => AppMessage::InputBackspace,
        Key::Delete => AppMessage::InputDelete,
        Key::Left => AppMessage::InputCursorLeft,
        Key::Right => AppMessage::InputCursorRight,
        Key::Home => AppMessage::InputHome,
        Key::End => AppMessage::InputEnd,
        Key::Char(c) => if !k.mods.control {
            AppMessage::InputChar(c)
        } else {
            AppMessage::NoOp
        },
        _ => AppMessage::NoOp,
    }
}

/// The add-repository dialog: Esc, Enter, ↑/↓ through the completions,
/// Tab takes one, the rest edits the path.
pub open spec fn add_repo_keys(k: KeyPress) -> AppMessage {
    match k.code {
        Key::Esc => AppMessage::CloseModal,
        Key::Enter => AppMessage::SubmitModal,
        Key::Up => AppMessage::CompletionUp,
        Key::Down => AppMessage::CompletionDown,
        Key::Tab => AppMessage::CompletionAccept,
        _ => edit_keys(k),
    }
}

/// The new-worktree dialog: Esc, Enter, ↑/↓ through the branches, the
/// rest edits the filter.
pub open spec fn new_worktree_keys(k: KeyPress) -> AppMessage {
    match k.code {
        Key::Esc => AppMessage::CloseModal,
        Key::Enter => AppMessage::SubmitModal,
        Key::Up => AppMessage::BranchCursorUp,
        Key::Down => AppMessage::BranchCursorDown,
        _ => edit_keys(k),
    }
}

pub open spec fn confirm_keys(k: KeyPress) -> AppMessage {
    match k.code {
        Key::Char('y') | Key::Char('Y') | Key::Enter => AppMessage::SubmitModal,
        Key::Char('n') | Key::Char('N') | Key::Esc => AppMessage::CloseModal,
        _ => AppMessage::NoOp,
    }
}

/// The remove-worktree dialog: `k` (or Enter) keeps the branch, `d`
/// deletes it, `D` force-deletes it, Esc cancels.
pub open spec fn remove_worktree_keys(k: KeyPress) -> AppMessage {
    match k.code {
        Key::Char('k') => AppMessage::ConfirmWorktreeDeletion(DeleteChoice::KeepBranch),
        Key::Enter => AppMessage::SubmitModal,
        Key::Char('d') => AppMessage::ConfirmWorktreeDeletion(DeleteChoice::Delete),
        Key::Char('D') => AppMessage::ConfirmWorktreeDeletion(DeleteChoice::ForceDelete),
        Key::Esc => AppMessage::CloseModal,
        _ => AppMessage::NoOp,
    }
}

/// The scan dialog: `j`/`k` move, Space toggles, Enter adds the
/// selection, Esc cancels.
pub open spec fn discovered_keys(k: KeyPress) -> AppMessage {
    match k.code {
        Key::Char('j') | Key::Down => AppMessage::DiscoveredCursorDown,
        Key::Char('k') | Key::Up => AppMessage::DiscoveredCursorUp,
        Key::Char(' ') => AppMessage::ToggleDiscoveredSelection,
        Key::Enter => AppMessage::SubmitModal,
        Key::Esc => AppMessage::CloseModal,
        _ => AppMessage::NoOp,
    }
}

/// The log viewer: `j`/`k`, PageUp/PageDown, `g`/`G`, Esc or `q` closes.
pub open spec fn log_keys(k: KeyPress) -> AppMessage {
    match k.code {
        Key::Char('j') | Key::Down => AppMessage::LogScrollDown,
        Key::Char('k') | Key::Up => AppMessage::LogScrollUp,
        Key::PageUp => AppMessage::LogScrollPageUp,
        Key::PageDown => AppMessage::LogScrollPageDown,
        Key::Char('g') => AppMessage::LogScrollTop,
        Key::Char('G') => AppMessage::LogScrollBottom,
        Key::Esc | Key::Char('q') => AppMessage::CloseModal,
        _ => AppMessage::NoOp,
    }
}

pub open spec fn modal_keys(m: Modal, k: KeyPress) -> AppMessage {
    match m {
        Modal::Help => help_keys(k),
        Modal::AddRepo(_) => add_repo_keys(k),
        Modal::ConfirmRemoveRepo { .. } => confirm_keys(k),
        Modal::NewWorktree(_) => new_worktree_keys(k),
        Modal::ConfirmRemoveWorktree { .. } => remove_worktree_keys(k),
        Modal::DiscoveredRepos(_) => discovered_keys(k),
        Modal::ViewLog(_) => log_keys(k),
    }
}

/// Where a key goes: only presses count; an open dialog takes every key;
/// otherwise Ctrl+Space cycles the focus and F2 the theme, then the
/// sidebar keys (Ctrl+c quits) or the main pane's keys apply.
pub open spec fn spec_route_key(k: KeyPress, is_press: bool, modal: Option<Modal>, ctx: KeyContext) -> KeyRoute {
    if !is_press {
        KeyRoute::Message(AppMessage::NoOp)
    } else {
        match modal {
            Some(m) => KeyRoute::Message(modal_keys(m, k)),
            None => if is_ctrl(k, ' ') {
                KeyRoute::Message(AppMessage::CycleFocus)
            } else if k.code == Key::F(2) {
                KeyRoute::Message(AppMessage::CycleTheme)
            } else if ctx.focus == FocusZone::Sidebar {
                if is_ctrl(k, 'c') {
                    KeyRoute::Message(AppMessage::Quit)
                } else {
                    KeyRoute::Message(sidebar_keys(k))
                }
            } else {
                main_keys(k, ctx)
            },
        }
    }
}

/// The sidebar's key bindings, as documented: with the sidebar focused
/// and no dialog open, `j`/`k` (or the arrows) move the cursor, `h`/`l`
/// collapse and expand, Enter activates, `a`/`R` add and remove a
/// repository, `w`/`W` make and remove a worktree, `r` refreshes, F2
/// cycles the theme, `?` opens the help and `q` quits, whatever
/// modifiers other than Control are held.
pub proof fn law_sidebar_bindings(m: Mods, ctx: KeyContext)
    requires
        !m.control,
        ctx.focus == FocusZone::Sidebar,
    ensures
        spec_route_key(KeyPress { code: Key::Char('j'), mods: m }, true, None, ctx) == KeyRoute::Message(AppMessage::MoveCursor(Direction::Down)),
        spec_route_key(KeyPress { code: Key::Down, mods: m }, true, None, ctx) == KeyRoute::Message(AppMessage::MoveCursor(Direction::Down)),
        spec_route_key(KeyPress { code: Key::Char('k'), mods: m }, true, None, ctx) == KeyRoute::Message(AppMessage::MoveCursor(Direction::Up)),
        spec_route_key(KeyPress { code: Key::Up, mods: m }, true, None, ctx) == KeyRoute::Message(AppMessage::MoveCursor(Direction::Up)),
        spec_route_key(KeyPress { code: Key::Char('h'), mods: m }, true, None, ctx) == KeyRoute::Message(AppMessage::CollapseOrAscend),
        spec_route_key(KeyPress { code: Key::Char('l'), mods: m }, true, None, ctx) == KeyRoute::Message(AppMessage::ExpandOrDescend),
        spec_route_key(KeyPress { code: Key::Enter, mods: m }, true, None, ctx) == KeyRoute::Message(AppMessage::Activate),
        spec_route_key(KeyPress { code: Key::Char('a'), mods: m }, true, None, ctx) == KeyRoute::Message(AppMessage::OpenAddRepo),
        spec_route_key(KeyPress { code: Key::Char('R'), mods: m }, true, None, ctx) == KeyRoute::Message(AppMessage::OpenConfirmRemoveRepo),
        spec_route_key(KeyPress { code: Key::Char('w'), mods: m }, true, None, ctx) == KeyRoute::Message(AppMessage::OpenNewWorktree),
        spec_route_key(KeyPress { code: Key::Char('W'), mods: m }, true, None, ctx) == KeyRoute::Message(AppMessage::OpenConfirmRemoveWorktree),
        spec_route_key(KeyPress { code: Key::Char('r'), mods: m }, true, None, ctx) == KeyRoute::Message(AppMessage::RefreshAll),
        spec_route_key(KeyPress { code: Key::F(2), mods: m }, true, None, ctx) == KeyRoute::Message(AppMessage::CycleTheme),
        spec_route_key(KeyPress { code: Key::Char('?'), mods: m }, true, None, ctx) == KeyRoute::Message(AppMessage::ToggleHelp),
        spec_route_key(KeyPress { code: Key::Char('q'), mods: m }, true, None, ctx) == KeyRoute::Message(AppMessage::Quit),
        spec_route_key(KeyPress { code: Key::Char(' '), mods: Mods { control: true, ..m } }, true, None, ctx) == KeyRoute::Message(AppMessage::CycleFocus),
        spec_route_key(KeyPress { code: Key::Char('c'), mods: Mods { control: true, ..m } }, true, None, ctx) == KeyRoute::Message(AppMessage::Quit),
{
}

fn edit_keys_exec(k: KeyPress) -> (m: AppMessage)
    ensures
        m == edit_keys(k),
{
    match k.code {
        Key::Backspace => AppMessage::InputBackspace,
        Key::Delete => AppMessage::InputDelete,
        Key::Left => AppMessage::InputCursorLeft,
        Key::Right => AppMessage::InputCursorRight,
        Key::Home => AppMessage::InputHome,
        Key::End => AppMessage::InputEnd,
        Key::Char(c) => if !k.mods.control {
            AppMessage::InputChar(c)
        } else {
            AppMessage::NoOp
        },
        _ => AppMessage::NoOp,
    }
}

fn modal_keys_exec(m: &Modal, k: KeyPress) -> (r: AppMessage)
    ensures
        r == modal_keys(*m, k),
{
    match m {
        Modal::Help => match k.code {
            Key::Char('?') | Key::Esc => AppMessage::CloseModal,
            Key::Char('j') | Key::Down => AppMessage::HelpScrollDown,
            Key::Char('k') | Key::Up => AppMessage::HelpScrollUp,
            _ => AppMessage::NoOp,
        },
        Modal::AddRepo(_) => match k.code {
            Key::Esc => AppMessage::CloseModal,
            Key::Enter => AppMessage::SubmitModal,
            Key::Up => AppMessage::CompletionUp,
            Key::Down => AppMessage::CompletionDown,
            Key::Tab => AppMessage::CompletionAccept,
            _ => edit_keys_exec(k),
        },
        Modal::ConfirmRemoveRepo { .. } => match k.code {
            Key::Char('y') | Key::Char('Y') | Key::Enter => AppMessage::SubmitModal,
            Key::Char('n') | Key::Char('N') | Key::Esc => AppMessage::CloseModal,
            _ => AppMessage::NoOp,
        },
        Modal::NewWorktree(_) => match k.code {
            Key::Esc => AppMessage::CloseModal,
            Key::Enter => AppMessage::SubmitModal,
            Key::Up => AppMessage::BranchCursorUp,
            Key::Down => AppMessage::BranchCursorDown,
            _ => edit_keys_exec(k),
        },
        Modal::ConfirmRemoveWorktree { .. } => match k.code {
            Key::Char('k') => AppMessage::ConfirmWorktreeDeletion(DeleteChoice::KeepBranch),
            Key::Enter => AppMessage::SubmitModal,
            Key::Char('d') => AppMessage::ConfirmWorktreeDeletion(DeleteChoice::Delete),
            Key::Char('D') => AppMessage::ConfirmWorktreeDeletion(DeleteChoice::ForceDelete),
            Key::Esc => AppMessage::CloseModal,
            _ => AppMessage::NoOp,
        },
        Modal::DiscoveredRepos(_) => match k.code {
            Key::Char('j') | Key::Down => AppMessage::DiscoveredCursorDown,
            Key::Char('k') | Key::Up => AppMessage::DiscoveredCursorUp,
            Key::Char(' ') => AppMessage::ToggleDiscoveredSelection,
            Key::Enter => AppMessage::SubmitModal,
            Key::Esc => AppMessage::CloseModal,
            _ => AppMessage::NoOp,
        },
        Modal::ViewLog(_) => match k.code {
            Key::Char('j') | Key::Down => AppMessage::LogScrollDown,
            Key::Char('k') | Key::Up => AppMessage::LogScrollUp,
            Key::PageUp => AppMessage::LogScrollPageUp,
            Key::PageDown => AppMessage::LogScrollPageDown,
            Key::Char('g') => AppMessage::LogScrollTop,
            Key::Char('G') => AppMessage::LogScrollBottom,
            Key::Esc | Key::Char('q') => AppMessage::CloseModal,
            _ => AppMessage::NoOp,
        },
    }
}

fn main_keys_exec(k: KeyPress, ctx: KeyContext) -> (r: KeyRoute)
    ensures
        r == main_keys(k, ctx),
{
    if ctx.view == MainView::Diff {
        if ctrl_char(k, 'd') {
            KeyRoute::Message(AppMessage::ToggleDiffView)
        } else if ctrl_char(k, 'c') {
            KeyRoute::Message(AppMessage::Quit)
        } else {
            KeyRoute::Message(
                match k.code {
                    Key::Char('j') | Key::Down => AppMessage::DiffCursorDown,
                    Key::Char('k') | Key::Up => AppMessage::DiffCursorUp,
                    Key::Tab => AppMessage::DiffToggleFocus,
                    Key::Char('J') => AppMessage::DiffContentDown,
                    Key::Char('K') => AppMessage::DiffContentUp,
                    Key::Char('s') => AppMessage::StageFocused,
                    Key::Char('u') => AppMessage::UnstageFocused,
                    Key::Char('m') => AppMessage::ToggleDiffMode,
                    Key::Char('?') => AppMessage::ToggleHelp,
                    _ => AppMessage::NoOp,
                },
            )
        }
    } else if ctx.has_terminal && ctx.mode == TerminalMode::Scrollback {
        if ctrl_char(k, 'c') {
            KeyRoute::Message(AppMessage::Quit)
        } else {
            KeyRoute::Message(
                match k.code {
                    Key::Char('j') | Key::Down => AppMessage::ScrollDown,
                    Key::Char('k') | Key::Up => AppMessage::ScrollUp,
                    Key::PageUp => AppMessage::ScrollPageUp,
                    Key::PageDown => AppMessage::ScrollPageDown,
                    Key::Char('g') => AppMessage::ScrollTop,
                    Key::Char('G') => AppMessage::ScrollBottom,
                    Key::Char('i') | Key::Char('q') | Key::Esc => AppMessage::ToggleScrollback,
                    Key::Char('?') => AppMessage::ToggleHelp,
                    _ => AppMessage::NoOp,
                },
            )
        }
    } else if ctrl_char(k, 't') {
        KeyRoute::Message(AppMessage::NewTerminal)
    } else if ctrl_char(k, 'w') {
        KeyRoute::Message(AppMessage::CloseTerminal)
    } else if ctrl_char(k, 'h') {
        KeyRoute::Message(AppMessage::PrevTab)
    } else if ctrl_char(k, 'l') {
        KeyRoute::Message(AppMessage::NextTab)
    } else if ctrl_char(k, '\\') {
        KeyRoute::Message(AppMessage::ToggleScrollback)
    } else if ctrl_char(k, 'd') {
        KeyRoute::Message(AppMessage::ToggleDiffView)
    } else if ctx.has_terminal {
        KeyRoute::Terminal(k)
    } else if ctrl_char(k, 'c') {
        KeyRoute::Message(AppMessage::Quit)
    } else {
        KeyRoute::Message(
            match k.code {
                Key::Enter => AppMessage::NewTerminal,
                Key::Char('?') => AppMessage::ToggleHelp,
                _ => AppMessage::NoOp,
            },
        )
    }
}

/// Where a key press goes (see `spec_route_key`).
pub fn route_key(k: KeyPress, is_press: bool, modal: Option<&Modal>, ctx: KeyContext) -> (r: KeyRoute)
    ensures
        r == spec_route_key(k, is_press, match modal {
            Some(x) => Some(*x),
            None => None,
        }, ctx),
{
    if !is_press {
        return KeyRoute::Message(AppMessage::NoOp);
    }
    match modal {
        Some(m) => KeyRoute::Message(modal_keys_exec(m, k)),
        None => if ctrl_char(k, ' ') {
            KeyRoute::Message(AppMessage::CycleFocus)
        } else if k.code == Key::F(2) {
            KeyRoute::Message(AppMessage::CycleTheme)
        } else if ctx.focus == FocusZone::Sidebar {
            if ctrl_char(k, 'c') {
                KeyRoute::Message(AppMessage::Quit)
            } else {
                KeyRoute::Message(
                    match k.code {
                        Key::Char('q') => AppMessage::Quit,
                        Key::Char('?') => AppMessage::ToggleHelp,
                        Key::Char('j') | Key::Down => AppMessage::MoveCursor(Direction::Down),
                        Key::Char('k') | Key::Up => AppMessage::MoveCursor(Direction::Up),
                        Key::Char('h') | Key::Left => AppMessage::CollapseOrAscend,
                        Key::Char('l') | Key::Right => AppMessage::ExpandOrDescend,
                        Key::Enter => AppMessage::Activate,
                        Key::Char('a') => AppMessage::OpenAddRepo,
                        Key::Char('R') => AppMessage::OpenConfirmRemoveRepo,
                        Key::Char('w') => AppMessage::OpenNewWorktree,
                        Key::Char('W') => AppMessage::OpenConfirmRemoveWorktree,
                        Key::Char('r') => AppMessage::RefreshAll,
                        _ => AppMessage::NoOp,
                    },
                )
            }
        } else {
            main_keys_exec(k, ctx)
        },
    }
}

impl<T> AppState<T> {
    /// The screen as the key router sees it: the focus, the active
    /// worktree's main view (terminal unless set), whether it has a
    /// terminal tab, and the mode of its tabs.
    pub fn key_context(&self) -> (c: KeyContext)
        ensures
            c.focus == self.ui.focus,
            c.view == match spec_active_id(*self) {
                Some(id) => if self.main_views@.contains_key(id) { self.main_views@[id] } else { MainView::Terminal },
                None => MainView::Terminal,
            },
            c.has_terminal == match spec_active_id(*self) {
                Some(id) => self.terminals@.contains_key(id) && self.terminals@[id].list@.len() > 0,
                None => false,
            },
            c.mode == match spec_active_id(*self) {
                Some(id) => if self.terminals@.contains_key(id) { self.terminals@[id].mode } else { TerminalMode::Insert },
                None => TerminalMode::Insert,
            },
    {
        let mut c = KeyContext { focus: self.ui.focus, view: MainView::Terminal, has_terminal: false, mode: TerminalMode::Insert };
        if let Some(id) = self.active_worktree_id() {
            if let Some(v) = self.main_views.get(id) {
                c.view = *v;
            }
            if let Some(ts) = self.terminals.get(id) {
                c.has_terminal = ts.list.len() > 0;
                c.mode = ts.mode;
            }
        }
        c
    }
}

} // verus!
