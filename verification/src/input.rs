//! Input events as the widget logic sees them: keys, modifiers, IME events,
//! and the editing command a key press stands for.
use vstd::prelude::*;
use vstd::string::*;
use vstd::utf8::encode_utf8;

verus! {

/// Keyboard modifier state accompanying a key press.
#[derive(Debug, Clone, Copy, PartialEq, Eq, Structural)]
pub struct Modifiers {
    pub ctrl: bool,
    pub shift: bool,
    pub alt: bool,
}

impl Default for Modifiers {
    fn default() -> (m: Self)
        ensures
            !m.ctrl && !m.shift && !m.alt,
    {
        Modifiers { ctrl: false, shift: false, alt: false }
    }
}

/// The named (non-character) keys the widgets react to.
#[derive(Debug, Clone, Copy, PartialEq, Eq, Structural)]
pub enum NamedKey {
    Escape,
    Enter,
    Tab,
    Space,
    Backspace,
    Delete,
    ArrowLeft,
    ArrowRight,
    ArrowUp,
    ArrowDown,
    Home,
    End,
    /// Any other named key.
    Other,
}

/// A logical key: a named key, or the text a character key produces.
#[derive(Debug, Clone)]
pub enum Key {
    Named(NamedKey),
    Character(String),
    /// A key that is neither (dead keys, unidentified keys).
    Unidentified,
}

/// IME (Input Method Editor) events for non-ASCII input support.
#[derive(Debug, Clone)]
pub enum ImeEvent {
    /// IME composition started
    Start,
    /// IME composition text update (pre-edit string)
    Update(String),
    /// IME composition completed (commit the composed text)
    Commit(String),
    /// IME composition cancelled
    Cancel,
}

/// Rust's `char::is_control`: the Unicode general category Cc, that is
/// U+0000..=U+001F and U+007F..=U+009F.
pub open spec fn is_control_char(c: char) -> bool {
    (c as u32) <= 0x1f || (0x7f <= (c as u32) && (c as u32) <= 0x9f)
}

/// Whether `c` is a control character (general category Cc).
pub fn is_control(c: char) -> (r: bool)
    ensures
        r == is_control_char(c),
{
    let code = c as u32;
    code <= 0x1f || (0x7f <= code && code <= 0x9f)
}

/// `bytes` is the one-letter string `lower` in either ASCII case (what
/// `str::eq_ignore_ascii_case` with a one-letter lowercase pattern accepts).
pub open spec fn is_letter_ignoring_case(bytes: Seq<u8>, lower: u8) -> bool {
    bytes == seq![lower] || bytes == seq![(lower - 32) as u8]
}

/// The editing command a key press stands for in a text input.
#[derive(Debug, Clone, Copy, PartialEq, Eq, Structural)]
pub enum EditCommand {
    SelectAll,
    Copy,
    Cut,
    Paste,
    Space,
    Tab,
    Enter,
    Backspace,
    Delete,
    Left,
    Right,
    Up,
    Down,
    Home,
    End,
    /// The key means nothing to a text input.
    Nothing,
}

/// The command a key press stands for: Ctrl+A/C/X/V (either case) select all,
/// copy, cut and paste; the named editing keys stand for themselves.
pub open spec fn command_for(key: Key, mods: Modifiers) -> EditCommand {
    match key {
        Key::Character(s) => if mods.ctrl && is_letter_ignoring_case(encode_utf8(s@), 0x61) {
            EditCommand::SelectAll
        } else if mods.ctrl && is_letter_ignoring_case(encode_utf8(s@), 0x63) {
            EditCommand::Copy
        } else if mods.ctrl && is_letter_ignoring_case(encode_utf8(s@), 0x78) {
            EditCommand::Cut
        } else if mods.ctrl && is_letter_ignoring_case(encode_utf8(s@), 0x76) {
            EditCommand::Paste
        } else {
            EditCommand::Nothing
        },
        Key::Named(named) => match named {
            NamedKey::Space => EditCommand::Space,
            NamedKey::Tab => EditCommand::Tab,
            NamedKey::Enter => EditCommand::Enter,
            NamedKey::Backspace => EditCommand::Backspace,
            NamedKey::Delete => EditCommand::Delete,
            NamedKey::ArrowLeft => EditCommand::Left,
            NamedKey::ArrowRight => EditCommand::Right,
            NamedKey::ArrowUp => EditCommand::Up,
            NamedKey::ArrowDown => EditCommand::Down,
            NamedKey::Home => EditCommand::Home,
            NamedKey::End => EditCommand::End,
            _ => EditCommand::Nothing,
        },
        Key::Unidentified => EditCommand::Nothing,
    }
}

/// Whether the bytes of `s` spell the one-letter `lower` in either ASCII case.
fn letter_ignoring_case(s: &String, lower: u8) -> (r: bool)
    requires
        0x61 <= lower <= 0x7a,
    ensures
        r == is_letter_ignoring_case(encode_utf8(s@), lower),
{
    let bytes = s.as_str().as_bytes();
    if bytes.len() != 1 {
        return false;
    }
    let b = bytes[0];
    let r = b == lower || b == lower - 32;
    assert(r ==> bytes@ =~= seq![b]);
    r
}

/// The editing command a key press stands for.
pub fn command_for_key(key: &Key, mods: Modifiers) -> (c: EditCommand)
    ensures
        c == command_for(*key, mods),
{
    match key {
        Key::Character(s) => {
            if mods.ctrl && letter_ignoring_case(s, 0x61) {
                EditCommand::SelectAll
            } else if mods.ctrl && letter_ignoring_case(s, 0x63) {
                EditCommand::Copy
            } else if mods.ctrl && letter_ignoring_case(s, 0x78) {
                EditCommand::Cut
            } else if mods.ctrl && letter_ignoring_case(s, 0x76) {
                EditCommand::Paste
            } else {
                EditCommand::Nothing
            }
        },
        Key::Named(named) => match named {
            NamedKey::Space => EditCommand::Space,
            NamedKey::Tab => EditCommand::Tab,
            NamedKey::Enter => EditCommand::Enter,
            NamedKey::Backspace => EditCommand::Backspace,
            NamedKey::Delete => EditCommand::Delete,
            NamedKey::ArrowLeft => EditCommand::Left,
            NamedKey::ArrowRight => EditCommand::Right,
            NamedKey::ArrowUp => EditCommand::Up,
            NamedKey::ArrowDown => EditCommand::Down,
            NamedKey::Home => EditCommand::Home,
            NamedKey::End => EditCommand::End,
            _ => EditCommand::Nothing,
        },
        Key::Unidentified => EditCommand::Nothing,
    }
}

/// An input event as widget logic sees it. Pointer positions are left out:
/// the widget tests them against its own geometry and passes the outcome on
/// beside the event.
#[derive(Debug, Clone)]
pub enum EventKind {
    Move,
    Press,
    Release,
    /// Secondary (usually right) mouse button press used for context menus
    ContextClick,
    Char(char),
    Key(Key, Modifiers),
    /// Vertical scroll
    Scroll,
    Ime(ImeEvent),
}

/// Keyboard events (keys and typed characters) stop at the first container
/// child that handles them; pointer events go on to every child.
pub open spec fn stops_at_first_handler(e: EventKind) -> bool {
    e is Key || e is Char
}

/// Whether an event stops at the first container child that handles it.
pub fn is_keyboard_event(e: &EventKind) -> (r: bool)
    ensures
        r == stops_at_first_handler(*e),
{
    match e {
        EventKind::Key(..) | EventKind::Char(_) => true,
        _ => false,
    }
}

/// Whether the key is the named key `named`.
pub open spec fn is_named(key: Key, named: NamedKey) -> bool {
    key matches Key::Named(k) && k == named
}

/// Whether the key is the named key `named`.
pub fn key_is(key: &Key, named: NamedKey) -> (r: bool)
    ensures
        r == is_named(*key, named),
{
    match key {
        Key::Named(k) => *k == named,
        _ => false,
    }
}

} // verus!
