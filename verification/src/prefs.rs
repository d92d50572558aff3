//! The global hotkey preference: a key plus modifiers, how it reads on
//! screen ("Ctrl+Alt+V") and how it is stored (modifier bits and the key's
//! name), with the modifier bits of `keyboard-types`.
use vstd::prelude::*;
use crate::text::{digit_char, nat_text, owned, push_char, push_str, same_text, str_chars, u64_text};

verus! {

/// The keys other than letters, digits and function keys that a hotkey can use.
#[derive(Clone, Copy, PartialEq, Eq, Structural, Debug)]
pub enum NamedKey {
    Enter,
    Tab,
    Backspace,
    Delete,
    Space,
    Escape,
    Home,
    End,
    PageUp,
    PageDown,
    ArrowUp,
    ArrowDown,
    ArrowLeft,
    ArrowRight,
    Backquote,
    Minus,
    Equal,
    BracketLeft,
    BracketRight,
    Backslash,
    Semicolon,
    Quote,
    Comma,
    Period,
    Slash,
}

/// A key a hotkey can use: a letter (`0` is A), a digit, a function key
/// (`1` to `12`) or a named key.
#[derive(Clone, Copy, PartialEq, Eq, Structural, Debug)]
pub enum KeyCode {
    Letter(u8),
    Digit(u8),
    Function(u8),
    Named(NamedKey),
}

/// The key exists: a letter below 26, a digit below 10, F1 to F12.
pub open spec fn key_ok(c: KeyCode) -> bool {
    match c {
        KeyCode::Letter(i) => i < 26,
        KeyCode::Digit(d) => d < 10,
        KeyCode::Function(n) => 1 <= n <= 12,
        KeyCode::Named(_) => true,
    }
}

impl KeyCode {
    /// Whether the key exists (see `key_ok`).
    pub fn is_valid(&self) -> (r: bool)
        ensures
            r == key_ok(*self),
    {
        match self {
            KeyCode::Letter(i) => *i < 26,
            KeyCode::Digit(d) => *d < 10,
            KeyCode::Function(n) => 1 <= *n && *n <= 12,
            KeyCode::Named(_) => true,
        }
    }
}

/// `Modifiers::ALT` of `keyboard-types`.
pub const MOD_ALT: u32 = 0x1;
/// `Modifiers::CONTROL` of `keyboard-types`.
pub const MOD_CONTROL: u32 = 0x8;
/// `Modifiers::SHIFT` of `keyboard-types`.
pub const MOD_SHIFT: u32 = 0x200;
/// `Modifiers::SUPER` of `keyboard-types`.
pub const MOD_SUPER: u32 = 0x2000;
/// Every flag that `keyboard-types` defines.
pub const MOD_ALL: u32 = 0x3fff;

/// `Modifiers::from_bits`: the bits, when each of them is a defined flag.
#[verifier::external_body]
fn modifiers_from_bits(bits: u32) -> (r: Option<u32>)
    ensures
        r == (if bits & !MOD_ALL == 0 { Some(bits) } else { None::<u32> }),
{
    match keyboard_types::Modifiers::from_bits(bits) {
        Some(m) => Some(m.bits()),
        None => None,
    }
}

/// The capital letter `i` places after A.
pub open spec fn letter_char(i: u8) -> char {
    ((65 + i) as u8) as char
}

/// The stored name of a named key (as `keyboard-types` spells it).
pub open spec fn named_name_spec(k: NamedKey) -> Seq<char> {
    match k {
        NamedKey::Enter => "Enter"@,
        NamedKey::Tab => "Tab"@,
        NamedKey::Backspace => "Backspace"@,
        NamedKey::Delete => "Delete"@,
        NamedKey::Space => "Space"@,
        NamedKey::Escape => "Escape"@,
        NamedKey::Home => "Home"@,
        NamedKey::End => "End"@,
        NamedKey::PageUp => "PageUp"@,
        NamedKey::PageDown => "PageDown"@,
        NamedKey::ArrowUp => "ArrowUp"@,
        NamedKey::ArrowDown => "ArrowDown"@,
        NamedKey::ArrowLeft => "ArrowLeft"@,
        NamedKey::ArrowRight => "ArrowRight"@,
        NamedKey::Backquote => "Backquote"@,
        NamedKey::Minus => "Minus"@,
        NamedKey::Equal => "Equal"@,
        NamedKey::BracketLeft => "BracketLeft"@,
        NamedKey::BracketRight => "BracketRight"@,
        NamedKey::Backslash => "Backslash"@,
        NamedKey::Semicolon => "Semicolon"@,
        NamedKey::Quote => "Quote"@,
        NamedKey::Comma => "Comma"@,
        NamedKey::Period => "Period"@,
        NamedKey::Slash => "Slash"@,
    }
}

/// How a named key reads on screen.
pub open spec fn named_label_spec(k: NamedKey) -> Seq<char> {
    match k {
        NamedKey::Enter => "Enter"@,
        NamedKey::Tab => "Tab"@,
        NamedKey::Backspace => "Backspace"@,
        NamedKey::Delete => "Delete"@,
        NamedKey::Space => "Space"@,
        NamedKey::Escape => "Esc"@,
        NamedKey::Home => "Home"@,
        NamedKey::End => "End"@,
        NamedKey::PageUp => "PageUp"@,
        NamedKey::PageDown => "PageDown"@,
        NamedKey::ArrowUp => "↑"@,
        NamedKey::ArrowDown => "↓"@,
        NamedKey::ArrowLeft => "←"@,
        NamedKey::ArrowRight => "→"@,
        NamedKey::Backquote => "`"@,
        NamedKey::Minus => "-"@,
        NamedKey::Equal => "="@,
        NamedKey::BracketLeft => "["@,
        NamedKey::BracketRight => "]"@,
        NamedKey::Backslash => "\\"@,
        NamedKey::Semicolon => ";"@,
        NamedKey::Quote => "'"@,
        NamedKey::Comma => ","@,
        NamedKey::Period => "."@,
        NamedKey::Slash => "/"@,
    }
}

/// The stored name of a named key.
pub fn named_name(k: NamedKey) -> (r: &'static str)
    ensures
        r@ == named_name_spec(k),
{
    match k {
        NamedKey::Enter => "Enter",
        NamedKey::Tab => "Tab",
        NamedKey::Backspace => "Backspace",
        NamedKey::Delete => "Delete",
        NamedKey::Space => "Space",
        NamedKey::Escape => "Escape",
        NamedKey::Home => "Home",
        NamedKey::End => "End",
        NamedKey::PageUp => "PageUp",
        NamedKey::PageDown => "PageDown",
        NamedKey::ArrowUp => "ArrowUp",
        NamedKey::ArrowDown => "ArrowDown",
        NamedKey::ArrowLeft => "ArrowLeft",
        NamedKey::ArrowRight => "ArrowRight",
        NamedKey::Backquote => "Backquote",
        NamedKey::Minus => "Minus",
        NamedKey::Equal => "Equal",
        NamedKey::BracketLeft => "BracketLeft",
        NamedKey::BracketRight => "BracketRight",
        NamedKey::Backslash => "Backslash",
        NamedKey::Semicolon => "Semicolon",
        NamedKey::Quote => "Quote",
        NamedKey::Comma => "Comma",
        NamedKey::Period => "Period",
        NamedKey::Slash => "Slash",
    }
}

/// How a named key reads on screen.
pub fn named_label(k: NamedKey) -> (r: &'static str)
    ensures
        r@ == named_label_spec(k),
{
    match k {
        NamedKey::Enter => "Enter",
        NamedKey::Tab => "Tab",
        NamedKey::Backspace => "Backspace",
        NamedKey::Delete => "Delete",
        NamedKey::Space => "Space",
        NamedKey::Escape => "Esc",
        NamedKey::Home => "Home",
        NamedKey::End => "End",
        NamedKey::PageUp => "PageUp",
        NamedKey::PageDown => "PageDown",
        NamedKey::ArrowUp => "↑",
        NamedKey::ArrowDown => "↓",
        NamedKey::ArrowLeft => "←",
        NamedKey::ArrowRight => "→",
        NamedKey::Backquote => "`",
        NamedKey::Minus => "-",
        NamedKey::Equal => "=",
        NamedKey::BracketLeft => "[",
        NamedKey::BracketRight => "]",
        NamedKey::Backslash => "\\",
        NamedKey::Semicolon => ";",
        NamedKey::Quote => "'",
        NamedKey::Comma => ",",
        NamedKey::Period => ".",
        NamedKey::Slash => "/",
    }
}

/// The named key with a stored name.
pub open spec fn named_from_spec(s: Seq<char>) -> Option<NamedKey> {
    if s == "Enter"@ {
        Some(NamedKey::Enter)
    }     else if s == "Tab"@ {
        Some(NamedKey::Tab)
    }     else if s == "Backspace"@ {
        Some(NamedKey::Backspace)
    }     else if s == "Delete"@ {
        Some(NamedKey::Delete)
    }     else if s == "Space"@ {
        Some(NamedKey::Space)
    }     else if s == "Escape"@ {
        Some(NamedKey::Escape)
    }     else if s == "Home"@ {
        Some(NamedKey::Home)
    }     else if s == "End"@ {
        Some(NamedKey::End)
    }     else if s == "PageUp"@ {
        Some(NamedKey::PageUp)
    }     else if s == "PageDown"@ {
        Some(NamedKey::PageDown)
    }     else if s == "ArrowUp"@ {
        Some(NamedKey::ArrowUp)
    }     else if s == "ArrowDown"@ {
        Some(NamedKey::ArrowDown)
    }     else if s == "ArrowLeft"@ {
        Some(NamedKey::ArrowLeft)
    }     else if s == "ArrowRight"@ {
        Some(NamedKey::ArrowRight)
    }     else if s == "Backquote"@ {
        Some(NamedKey::Backquote)
    }     else if s == "Minus"@ {
        Some(NamedKey::Minus)
    }     else if s == "Equal"@ {
        Some(NamedKey::Equal)
    }     else if s == "BracketLeft"@ {
        Some(NamedKey::BracketLeft)
    }     else if s == "BracketRight"@ {
        Some(NamedKey::BracketRight)
    }     else if s == "Backslash"@ {
        Some(NamedKey::Backslash)
    }     else if s == "Semicolon"@ {
        Some(NamedKey::Semicolon)
    }     else if s == "Quote"@ {
        Some(NamedKey::Quote)
    }     else if s == "Comma"@ {
        Some(NamedKey::Comma)
    }     else if s == "Period"@ {
        Some(NamedKey::Period)
    }     else if s == "Slash"@ {
        Some(NamedKey::Slash)
    } else {
        None
    }
}

fn named_from(s: &String) -> (r: Option<NamedKey>)
    ensures
        r == named_from_spec(s@),
{
    if same_text(s, "Enter") {
        Some(NamedKey::Enter)
    }     else if same_text(s, "Tab") {
        Some(NamedKey::Tab)
    }     else if same_text(s, "Backspace") {
        Some(NamedKey::Backspace)
    }     else if same_text(s, "Delete") {
        Some(NamedKey::Delete)
    }     else if same_text(s, "Space") {
        Some(NamedKey::Space)
    }     else if same_text(s, "Escape") {
        Some(NamedKey::Escape)
    }     else if same_text(s, "Home") {
        Some(NamedKey::Home)
    }     else if same_text(s, "End") {
        Some(NamedKey::End)
    }     else if same_text(s, "PageUp") {
        Some(NamedKey::PageUp)
    }     else if same_text(s, "PageDown") {
        Some(NamedKey::PageDown)
    }     else if same_text(s, "ArrowUp") {
        Some(NamedKey::ArrowUp)
    }     else if same_text(s, "ArrowDown") {
        Some(NamedKey::ArrowDown)
    }     else if same_text(s, "ArrowLeft") {
        Some(NamedKey::ArrowLeft)
    }     else if same_text(s, "ArrowRight") {
        Some(NamedKey::ArrowRight)
    }     else if same_text(s, "Backquote") {
        Some(NamedKey::Backquote)
    }     else if same_text(s, "Minus") {
        Some(NamedKey::Minus)
    }     else if same_text(s, "Equal") {
        Some(NamedKey::Equal)
    }     else if same_text(s, "BracketLeft") {
        Some(NamedKey::BracketLeft)
    }     else if same_text(s, "BracketRight") {
        Some(NamedKey::BracketRight)
    }     else if same_text(s, "Backslash") {
        Some(NamedKey::Backslash)
    }     else if same_text(s, "Semicolon") {
        Some(NamedKey::Semicolon)
    }     else if same_text(s, "Quote") {
        Some(NamedKey::Quote)
    }     else if same_text(s, "Comma") {
        Some(NamedKey::Comma)
    }     else if same_text(s, "Period") {
        Some(NamedKey::Period)
    }     else if same_text(s, "Slash") {
        Some(NamedKey::Slash)
    } else {
        None
    }
}

/// Every named key's stored name reads back as that key.
proof fn lemma_named_roundtrip(k: NamedKey)
    ensures
        named_from_spec(named_name_spec(k)) == Some(k),
{
    reveal_strlit("Enter");
    reveal_strlit("Tab");
    reveal_strlit("Backspace");
    reveal_strlit("Delete");
    reveal_strlit("Space");
    reveal_strlit("Escape");
    reveal_strlit("Home");
    reveal_strlit("End");
    reveal_strlit("PageUp");
    reveal_strlit("PageDown");
    reveal_strlit("ArrowUp");
    reveal_strlit("ArrowDown");
    reveal_strlit("ArrowLeft");
    reveal_strlit("ArrowRight");
    reveal_strlit("Backquote");
    reveal_strlit("Minus");
    reveal_strlit("Equal");
    reveal_strlit("BracketLeft");
    reveal_strlit("BracketRight");
    reveal_strlit("Backslash");
    reveal_strlit("Semicolon");
    reveal_strlit("Quote");
    reveal_strlit("Comma");
    reveal_strlit("Period");
    reveal_strlit("Slash");
    match k {
        NamedKey::Enter => {
        },
        NamedKey::Tab => {
            assert("Tab"@.len() != "Enter"@.len());
        },
        NamedKey::Backspace => {
            assert("Backspace"@.len() != "Enter"@.len());
            assert("Backspace"@.len() != "Tab"@.len());
        },
        NamedKey::Delete => {
            assert("Delete"@.len() != "Enter"@.len());
            assert("Delete"@.len() != "Tab"@.len());
            assert("Delete"@.len() != "Backspace"@.len());
        },
        NamedKey::Space => {
            assert("Space"@[0] != "Enter"@[0]);
            assert("Space"@.len() != "Tab"@.len());
            assert("Space"@.len() != "Backspace"@.len());
            assert("Space"@.len() != "Delete"@.len());
        },
        NamedKey::Escape => {
            assert("Escape"@.len() != "Enter"@.len());
            assert("Escape"@.len() != "Tab"@.len());
            assert("Escape"@.len() != "Backspace"@.len());
            assert("Escape"@[0] != "Delete"@[0]);
            assert("Escape"@.len() != "Space"@.len());
        },
        NamedKey::Home => {
            assert("Home"@.len() != "Enter"@.len());
            assert("Home"@.len() != "Tab"@.len());
            assert("Home"@.len() != "Backspace"@.len());
            assert("Home"@.len() != "Delete"@.len());
            assert("Home"@.len() != "Space"@.len());
            assert("Home"@.len() != "Escape"@.len());
        },
        NamedKey::End => {
            assert("End"@.len() != "Enter"@.len());
            assert("End"@[0] != "Tab"@[0]);
            assert("End"@.len() != "Backspace"@.len());
            assert("End"@.len() != "Delete"@.len());
            assert("End"@.len() != "Space"@.len());
            assert("End"@.len() != "Escape"@.len());
            assert("End"@.len() != "Home"@.len());
        },
        NamedKey::PageUp => {
            assert("PageUp"@.len() != "Enter"@.len());
            assert("PageUp"@.len() != "Tab"@.len());
            assert("PageUp"@.len() != "Backspace"@.len());
            assert("PageUp"@[0] != "Delete"@[0]);
            assert("PageUp"@.len() != "Space"@.len());
            assert("PageUp"@[0] != "Escape"@[0]);
            assert("PageUp"@.len() != "Home"@.len());
            assert("PageUp"@.len() != "End"@.len());
        },
        NamedKey::PageDown => {
            assert("PageDown"@.len() != "Enter"@.len());
            assert("PageDown"@.len() != "Tab"@.len());
            assert("PageDown"@.len() != "Backspace"@.len());
            assert("PageDown"@.len() != "Delete"@.len());
            assert("PageDown"@.len() != "Space"@.len());
            assert("PageDown"@.len() != "Escape"@.len());
            assert("PageDown"@.len() != "Home"@.len());
            assert("PageDown"@.len() != "End"@.len());
            assert("PageDown"@.len() != "PageUp"@.len());
        },
        NamedKey::ArrowUp => {
            assert("ArrowUp"@.len() != "Enter"@.len());
            assert("ArrowUp"@.len() != "Tab"@.len());
            assert("ArrowUp"@.len() != "Backspace"@.len());
            assert("ArrowUp"@.len() != "Delete"@.len());
            assert("ArrowUp"@.len() != "Space"@.len());
            assert("ArrowUp"@.len() != "Escape"@.len());
            assert("ArrowUp"@.len() != "Home"@.len());
            assert("ArrowUp"@.len() != "End"@.len());
            assert("ArrowUp"@.len() != "PageUp"@.len());
            assert("ArrowUp"@.len() != "PageDown"@.len());
        },
        NamedKey::ArrowDown => {
            assert("ArrowDown"@.len() != "Enter"@.len());
            assert("ArrowDown"@.len() != "Tab"@.len());
            assert("ArrowDown"@[0] != "Backspace"@[0]);
            assert("ArrowDown"@.len() != "Delete"@.len());
            assert("ArrowDown"@.len() != "Space"@.len());
            assert("ArrowDown"@.len() != "Escape"@.len());
            assert("ArrowDown"@.len() != "Home"@.len());
            assert("ArrowDown"@.len() != "End"@.len());
            assert("ArrowDown"@.len() != "PageUp"@.len());
            assert("ArrowDown"@.len() != "PageDown"@.len());
            assert("ArrowDown"@.len() != "ArrowUp"@.len());
        },
        NamedKey::ArrowLeft => {
            assert("ArrowLeft"@.len() != "Enter"@.len());
            assert("ArrowLeft"@.len() != "Tab"@.len());
            assert("ArrowLeft"@[0] != "Backspace"@[0]);
            assert("ArrowLeft"@.len() != "Delete"@.len());
            assert("ArrowLeft"@.len() != "Space"@.len());
            assert("ArrowLeft"@.len() != "Escape"@.len());
            assert("ArrowLeft"@.len() != "Home"@.len());
            assert("ArrowLeft"@.len() != "End"@.len());
            assert("ArrowLeft"@.len() != "PageUp"@.len());
            assert("ArrowLeft"@.len() != "PageDown"@.len());
            assert("ArrowLeft"@.len() != "ArrowUp"@.len());
            assert("ArrowLeft"@[5] != "ArrowDown"@[5]);
        },
        NamedKey::ArrowRight => {
            assert("ArrowRight"@.len() != "Enter"@.len());
            assert("ArrowRight"@.len() != "Tab"@.len());
            assert("ArrowRight"@.len() != "Backspace"@.len());
            assert("ArrowRight"@.len() != "Delete"@.len());
            assert("ArrowRight"@.len() != "Space"@.len());
            assert("ArrowRight"@.len() != "Escape"@.len());
            assert("ArrowRight"@.len() != "Home"@.len());
            assert("ArrowRight"@.len() != "End"@.len());
            assert("ArrowRight"@.len() != "PageUp"@.len());
            assert("ArrowRight"@.len() != "PageDown"@.len());
            assert("ArrowRight"@.len() != "ArrowUp"@.len());
            assert("ArrowRight"@.len() != "ArrowDown"@.len());
            assert("ArrowRight"@.len() != "ArrowLeft"@.len());
        },
        NamedKey::Backquote => {
            assert("Backquote"@.len() != "Enter"@.len());
            assert("Backquote"@.len() != "Tab"@.len());
            assert("Backquote"@[4] != "Backspace"@[4]);
            assert("Backquote"@.len() != "Delete"@.len());
            assert("Backquote"@.len() != "Space"@.len());
            assert("Backquote"@.len() != "Escape"@.len());
            assert("Backquote"@.len() != "Home"@.len());
            assert("Backquote"@.len() != "End"@.len());
            assert("Backquote"@.len() != "PageUp"@.len());
            assert("Backquote"@.len() != "PageDown"@.len());
            assert("Backquote"@.len() != "ArrowUp"@.len());
            assert("Backquote"@[0] != "ArrowDown"@[0]);
            assert("Backquote"@[0] != "ArrowLeft"@[0]);
            assert("Backquote"@.len() != "ArrowRight"@.len());
        },
        NamedKey::Minus => {
            assert("Minus"@[0] != "Enter"@[0]);
            assert("Minus"@.len() != "Tab"@.len());
            assert("Minus"@.len() != "Backspace"@.len());
            assert("Minus"@.len() != "Delete"@.len());
            assert("Minus"@[0] != "Space"@[0]);
            assert("Minus"@.len() != "Escape"@.len());
            assert("Minus"@.len() != "Home"@.len());
            assert("Minus"@.len() != "End"@.len());
            assert("Minus"@.len() != "PageUp"@.len());
            assert("Minus"@.len() != "PageDown"@.len());
            assert("Minus"@.len() != "ArrowUp"@.len());
            assert("Minus"@.len() != "ArrowDown"@.len());
            assert("Minus"@.len() != "ArrowLeft"@.len());
            assert("Minus"@.len() != "ArrowRight"@.len());
            assert("Minus"@.len() != "Backquote"@.len());
        },
        NamedKey::Equal => {
            assert("Equal"@[1] != "Enter"@[1]);
            assert("Equal"@.len() != "Tab"@.len());
            assert("Equal"@.len() != "Backspace"@.len());
            assert("Equal"@.len() != "Delete"@.len());
            assert("Equal"@[0] != "Space"@[0]);
            assert("Equal"@.len() != "Escape"@.len());
            assert("Equal"@.len() != "Home"@.len());
            assert("Equal"@.len() != "End"@.len());
            assert("Equal"@.len() != "PageUp"@.len());
            assert("Equal"@.len() != "PageDown"@.len());
            assert("Equal"@.len() != "ArrowUp"@.len());
            assert("Equal"@.len() != "ArrowDown"@.len());
            assert("Equal"@.len() != "ArrowLeft"@.len());
            assert("Equal"@.len() != "ArrowRight"@.len());
            assert("Equal"@.len() != "Backquote"@.len());
            assert("Equal"@[0] != "Minus"@[0]);
        },
        NamedKey::BracketLeft => {
            assert("BracketLeft"@.len() != "Enter"@.len());
            assert("BracketLeft"@.len() != "Tab"@.len());
            assert("BracketLeft"@.len() != "Backspace"@.len());
            assert("BracketLeft"@.len() != "Delete"@.len());
            assert("BracketLeft"@.len() != "Space"@.len());
            assert("BracketLeft"@.len() != "Escape"@.len());
            assert("BracketLeft"@.len() != "Home"@.len());
            assert("BracketLeft"@.len() != "End"@.len());
            assert("BracketLeft"@.len() != "PageUp"@.len());
            assert("BracketLeft"@.len() != "PageDown"@.len());
            assert("BracketLeft"@.len() != "ArrowUp"@.len());
            assert("BracketLeft"@.len() != "ArrowDown"@.len());
            assert("BracketLeft"@.len() != "ArrowLeft"@.len());
            assert("BracketLeft"@.len() != "ArrowRight"@.len());
            assert("BracketLeft"@.len() != "Backquote"@.len());
            assert("BracketLeft"@.len() != "Minus"@.len());
            assert("BracketLeft"@.len() != "Equal"@.len());
        },
        NamedKey::BracketRight => {
            assert("BracketRight"@.len() != "Enter"@.len());
            assert("BracketRight"@.len() != "Tab"@.len());
            assert("BracketRight"@.len() != "Backspace"@.len());
            assert("BracketRight"@.len() != "Delete"@.len());
            assert("BracketRight"@.len() != "Space"@.len());
            assert("BracketRight"@.len() != "Escape"@.len());
            assert("BracketRight"@.len() != "Home"@.len());
            assert("BracketRight"@.len() != "End"@.len());
            assert("BracketRight"@.len() != "PageUp"@.len());
            assert("BracketRight"@.len() != "PageDown"@.len());
            assert("BracketRight"@.len() != "ArrowUp"@.len());
            assert("BracketRight"@.len() != "ArrowDown"@.len());
            assert("BracketRight"@.len() != "ArrowLeft"@.len());
            assert("BracketRight"@.len() != "ArrowRight"@.len());
            assert("BracketRight"@.len() != "Backquote"@.len());
            assert("BracketRight"@.len() != "Minus"@.len());
            assert("BracketRight"@.len() != "Equal"@.len());
            assert("BracketRight"@.len() != "BracketLeft"@.len());
        },
        NamedKey::Backslash => {
            assert("Backslash"@.len() != "Enter"@.len());
            assert("Backslash"@.len() != "Tab"@.len());
            assert("Backslash"@[5] != "Backspace"@[5]);
            assert("Backslash"@.len() != "Delete"@.len());
            assert("Backslash"@.len() != "Space"@.len());
            assert("Backslash"@.len() != "Escape"@.len());
            assert("Backslash"@.len() != "Home"@.len());
            assert("Backslash"@.len() != "End"@.len());
            assert("Backslash"@.len() != "PageUp"@.len());
            assert("Backslash"@.len() != "PageDown"@.len());
            assert("Backslash"@.len() != "ArrowUp"@.len());
            assert("Backslash"@[0] != "ArrowDown"@[0]);
            assert("Backslash"@[0] != "ArrowLeft"@[0]);
            assert("Backslash"@.len() != "ArrowRight"@.len());
            assert("Backslash"@[4] != "Backquote"@[4]);
            assert("Backslash"@.len() != "Minus"@.len());
            assert("Backslash"@.len() != "Equal"@.len());
            assert("Backslash"@.len() != "BracketLeft"@.len());
            assert("Backslash"@.len() != "BracketRight"@.len());
        },
        NamedKey::Semicolon => {
            assert("Semicolon"@.len() != "Enter"@.len());
            assert("Semicolon"@.len() != "Tab"@.len());
            assert("Semicolon"@[0] != "Backspace"@[0]);
            assert("Semicolon"@.len() != "Delete"@.len());
            assert("Semicolon"@.len() != "Space"@.len());
            assert("Semicolon"@.len() != "Escape"@.len());
            assert("Semicolon"@.len() != "Home"@.len());
            assert("Semicolon"@.len() != "End"@.len());
            assert("Semicolon"@.len() != "PageUp"@.len());
            assert("Semicolon"@.len() != "PageDown"@.len());
            assert("Semicolon"@.len() != "ArrowUp"@.len());
            assert("Semicolon"@[0] != "ArrowDown"@[0]);
            assert("Semicolon"@[0] != "ArrowLeft"@[0]);
            assert("Semicolon"@.len() != "ArrowRight"@.len());
            assert("Semicolon"@[0] != "Backquote"@[0]);
            assert("Semicolon"@.len() != "Minus"@.len());
            assert("Semicolon"@.len() != "Equal"@.len());
            assert("Semicolon"@.len() != "BracketLeft"@.len());
            assert("Semicolon"@.len() != "BracketRight"@.len());
            assert("Semicolon"@[0] != "Backslash"@[0]);
        },
        NamedKey::Quote => {
            assert("Quote"@[0] != "Enter"@[0]);
            assert("Quote"@.len() != "Tab"@.len());
            assert("Quote"@.len() != "Backspace"@.len());
            assert("Quote"@.len() != "Delete"@.len());
            assert("Quote"@[0] != "Space"@[0]);
            assert("Quote"@.len() != "Escape"@.len());
            assert("Quote"@.len() != "Home"@.len());
            assert("Quote"@.len() != "End"@.len());
            assert("Quote"@.len() != "PageUp"@.len());
            assert("Quote"@.len() != "PageDown"@.len());
            assert("Quote"@.len() != "ArrowUp"@.len());
            assert("Quote"@.len() != "ArrowDown"@.len());
            assert("Quote"@.len() != "ArrowLeft"@.len());
            assert("Quote"@.len() != "ArrowRight"@.len());
            assert("Quote"@.len() != "Backquote"@.len());
            assert("Quote"@[0] != "Minus"@[0]);
            assert("Quote"@[0] != "Equal"@[0]);
            assert("Quote"@.len() != "BracketLeft"@.len());
            assert("Quote"@.len() != "BracketRight"@.len());
            assert("Quote"@.len() != "Backslash"@.len());
            assert("Quote"@.len() != "Semicolon"@.len());
        },
        NamedKey::Comma => {
            assert("Comma"@[0] != "Enter"@[0]);
            assert("Comma"@.len() != "Tab"@.len());
            assert("Comma"@.len() != "Backspace"@.len());
            assert("Comma"@.len() != "Delete"@.len());
            assert("Comma"@[0] != "Space"@[0]);
            assert("Comma"@.len() != "Escape"@.len());
            assert("Comma"@.len() != "Home"@.len());
            assert("Comma"@.len() != "End"@.len());
            assert("Comma"@.len() != "PageUp"@.len());
            assert("Comma"@.len() != "PageDown"@.len());
            assert("Comma"@.len() != "ArrowUp"@.len());
            assert("Comma"@.len() != "ArrowDown"@.len());
            assert("Comma"@.len() != "ArrowLeft"@.len());
            assert("Comma"@.len() != "ArrowRight"@.len());
            assert("Comma"@.len() != "Backquote"@.len());
            assert("Comma"@[0] != "Minus"@[0]);
            assert("Comma"@[0] != "Equal"@[0]);
            assert("Comma"@.len() != "BracketLeft"@.len());
            assert("Comma"@.len() != "BracketRight"@.len());
            assert("Comma"@.len() != "Backslash"@.len());
            assert("Comma"@.len() != "Semicolon"@.len());
            assert("Comma"@[0] != "Quote"@[0]);
        },
        NamedKey::Period => {
            assert("Period"@.len() != "Enter"@.len());
            assert("Period"@.len() != "Tab"@.len());
            assert("Period"@.len() != "Backspace"@.len());
            assert("Period"@[0] != "Delete"@[0]);
            assert("Period"@.len() != "Space"@.len());
            assert("Period"@[0] != "Escape"@[0]);
            assert("Period"@.len() != "Home"@.len());
            assert("Period"@.len() != "End"@.len());
            assert("Period"@[1] != "PageUp"@[1]);
            assert("Period"@.len() != "PageDown"@.len());
            assert("Period"@.len() != "ArrowUp"@.len());
            assert("Period"@.len() != "ArrowDown"@.len());
            assert("Period"@.len() != "ArrowLeft"@.len());
            assert("Period"@.len() != "ArrowRight"@.len());
            assert("Period"@.len() != "Backquote"@.len());
            assert("Period"@.len() != "Minus"@.len());
            assert("Period"@.len() != "Equal"@.len());
            assert("Period"@.len() != "BracketLeft"@.len());
            assert("Period"@.len() != "BracketRight"@.len());
            assert("Period"@.len() != "Backslash"@.len());
            assert("Period"@.len() != "Semicolon"@.len());
            assert("Period"@.len() != "Quote"@.len());
            assert("Period"@.len() != "Comma"@.len());
        },
        NamedKey::Slash => {
            assert("Slash"@[0] != "Enter"@[0]);
            assert("Slash"@.len() != "Tab"@.len());
            assert("Slash"@.len() != "Backspace"@.len());
            assert("Slash"@.len() != "Delete"@.len());
            assert("Slash"@[1] != "Space"@[1]);
            assert("Slash"@.len() != "Escape"@.len());
            assert("Slash"@.len() != "Home"@.len());
            assert("Slash"@.len() != "End"@.len());
            assert("Slash"@.len() != "PageUp"@.len());
            assert("Slash"@.len() != "PageDown"@.len());
            assert("Slash"@.len() != "ArrowUp"@.len());
            assert("Slash"@.len() != "ArrowDown"@.len());
            assert("Slash"@.len() != "ArrowLeft"@.len());
            assert("Slash"@.len() != "ArrowRight"@.len());
            assert("Slash"@.len() != "Backquote"@.len());
            assert("Slash"@[0] != "Minus"@[0]);
            assert("Slash"@[0] != "Equal"@[0]);
            assert("Slash"@.len() != "BracketLeft"@.len());
            assert("Slash"@.len() != "BracketRight"@.len());
            assert("Slash"@.len() != "Backslash"@.len());
            assert("Slash"@.len() != "Semicolon"@.len());
            assert("Slash"@[0] != "Quote"@[0]);
            assert("Slash"@[0] != "Comma"@[0]);
            assert("Slash"@.len() != "Period"@.len());
        },
    }
}

/// No named key's stored name looks like a letter, digit or function key name.
proof fn lemma_named_shapes(k: NamedKey)
    ensures
        !(named_name_spec(k).len() == 4 && named_name_spec(k)[0] == 'K'),
        !(named_name_spec(k).len() == 6 && named_name_spec(k)[1] == 'i'),
        named_name_spec(k).len() > 0 ==> named_name_spec(k)[0] != 'F',
{
    reveal_strlit("Enter");
    reveal_strlit("Tab");
    reveal_strlit("Backspace");
    reveal_strlit("Delete");
    reveal_strlit("Space");
    reveal_strlit("Escape");
    reveal_strlit("Home");
    reveal_strlit("End");
    reveal_strlit("PageUp");
    reveal_strlit("PageDown");
    reveal_strlit("ArrowUp");
    reveal_strlit("ArrowDown");
    reveal_strlit("ArrowLeft");
    reveal_strlit("ArrowRight");
    reveal_strlit("Backquote");
    reveal_strlit("Minus");
    reveal_strlit("Equal");
    reveal_strlit("BracketLeft");
    reveal_strlit("BracketRight");
    reveal_strlit("Backslash");
    reveal_strlit("Semicolon");
    reveal_strlit("Quote");
    reveal_strlit("Comma");
    reveal_strlit("Period");
    reveal_strlit("Slash");
    match k {
        NamedKey::Enter => {
            assert("Enter"@[0] == 'E');
        },
        NamedKey::Tab => {
            assert("Tab"@[0] == 'T');
        },
        NamedKey::Backspace => {
            assert("Backspace"@[0] == 'B');
        },
        NamedKey::Delete => {
            assert("Delete"@[0] == 'D');
            assert("Delete"@[1] == 'e');
        },
        NamedKey::Space => {
            assert("Space"@[0] == 'S');
        },
        NamedKey::Escape => {
            assert("Escape"@[0] == 'E');
            assert("Escape"@[1] == 's');
        },
        NamedKey::Home => {
            assert("Home"@[0] == 'H');
        },
        NamedKey::End => {
            assert("End"@[0] == 'E');
        },
        NamedKey::PageUp => {
            assert("PageUp"@[0] == 'P');
            assert("PageUp"@[1] == 'a');
        },
        NamedKey::PageDown => {
            assert("PageDown"@[0] == 'P');
        },
        NamedKey::ArrowUp => {
            assert("ArrowUp"@[0] == 'A');
        },
        NamedKey::ArrowDown => {
            assert("ArrowDown"@[0] == 'A');
        },
        NamedKey::ArrowLeft => {
            assert("ArrowLeft"@[0] == 'A');
        },
        NamedKey::ArrowRight => {
            assert("ArrowRight"@[0] == 'A');
        },
        NamedKey::Backquote => {
            assert("Backquote"@[0] == 'B');
        },
        NamedKey::Minus => {
            assert("Minus"@[0] == 'M');
        },
        NamedKey::Equal => {
            assert("Equal"@[0] == 'E');
        },
        NamedKey::BracketLeft => {
            assert("BracketLeft"@[0] == 'B');
        },
        NamedKey::BracketRight => {
            assert("BracketRight"@[0] == 'B');
        },
        NamedKey::Backslash => {
            assert("Backslash"@[0] == 'B');
        },
        NamedKey::Semicolon => {
            assert("Semicolon"@[0] == 'S');
        },
        NamedKey::Quote => {
            assert("Quote"@[0] == 'Q');
        },
        NamedKey::Comma => {
            assert("Comma"@[0] == 'C');
        },
        NamedKey::Period => {
            assert("Period"@[0] == 'P');
            assert("Period"@[1] == 'e');
        },
        NamedKey::Slash => {
            assert("Slash"@[0] == 'S');
        },
    }
}

/// The key's stored name ("KeyV", "Digit1", "F5", "Escape"), as
/// `keyboard-types` spells its `Code`s.
pub open spec fn code_name_spec(c: KeyCode) -> Seq<char> {
    match c {
        KeyCode::Letter(i) => seq!['K', 'e', 'y', letter_char(i)],
        KeyCode::Digit(d) => seq!['D', 'i', 'g', 'i', 't', digit_char(d as nat)],
        KeyCode::Function(n) => seq!['F'] + nat_text(n as nat),
        KeyCode::Named(k) => named_name_spec(k),
    }
}

/// How the key reads on screen ("V", "1", "F5", "Esc", "←").
pub open spec fn code_display_spec(c: KeyCode) -> Seq<char> {
    match c {
        KeyCode::Letter(i) => seq![letter_char(i)],
        KeyCode::Digit(d) => seq![digit_char(d as nat)],
        KeyCode::Function(n) => seq!['F'] + nat_text(n as nat),
        KeyCode::Named(k) => named_label_spec(k),
    }
}

/// The number of a function key's name after the `F`: 1 to 12.
pub open spec fn function_number(t: Seq<char>) -> Option<u8> {
    if t.len() == 1 && '1' <= t[0] <= '9' {
        Some(((t[0] as u32) - 48) as u8)
    } else if t.len() == 2 && t[0] == '1' && '0' <= t[1] <= '2' {
        Some((10 + ((t[1] as u32) - 48)) as u8)
    } else {
        None
    }
}

/// The key with a stored name, if any.
pub open spec fn code_from_name_spec(s: Seq<char>) -> Option<KeyCode> {
    if s.len() == 4 && s[0] == 'K' && s[1] == 'e' && s[2] == 'y' && 'A' <= s[3] <= 'Z' {
        Some(KeyCode::Letter(((s[3] as u32) - 65) as u8))
    } else if s.len() == 6 && s[0] == 'D' && s[1] == 'i' && s[2] == 'g' && s[3] == 'i' && s[4] == 't' && '0' <= s[5] <= '9' {
        Some(KeyCode::Digit(((s[5] as u32) - 48) as u8))
    } else if s.len() >= 2 && s[0] == 'F' && function_number(s.drop_first()) is Some {
        Some(KeyCode::Function(function_number(s.drop_first())->0))
    } else {
        match named_from_spec(s) {
            Some(k) => Some(KeyCode::Named(k)),
            None => None,
        }
    }
}

fn letter(i: u8) -> (c: char)
    requires
        i < 26,
    ensures
        c == letter_char(i),
{
    ((65 + i) as u8) as char
}

fn digit(d: u8) -> (c: char)
    requires
        d < 10,
    ensures
        c == digit_char(d as nat),
{
    if d == 0 { '0' } else if d == 1 { '1' } else if d == 2 { '2' } else if d == 3 { '3' }
    else if d == 4 { '4' } else if d == 5 { '5' } else if d == 6 { '6' } else if d == 7 { '7' }
    else if d == 8 { '8' } else { '9' }
}

/// The key's stored name.
pub fn code_name(c: KeyCode) -> (r: String)
    requires
        key_ok(c),
    ensures
        r@ == code_name_spec(c),
{
    match c {
        KeyCode::Letter(i) => {
            let mut s = owned("Key");
            push_char(&mut s, letter(i));
            proof {
                reveal_strlit("Key");
                assert(s@ =~= seq!['K', 'e', 'y', letter_char(i)]);
            }
            s
        },
        KeyCode::Digit(d) => {
            let mut s = owned("Digit");
            push_char(&mut s, digit(d));
            proof {
                reveal_strlit("Digit");
                assert(s@ =~= seq!['D', 'i', 'g', 'i', 't', digit_char(d as nat)]);
            }
            s
        },
        KeyCode::Function(n) => function_text(n),
        KeyCode::Named(k) => owned(named_name(k)),
    }
}

/// `F` and the number of a function key.
fn function_text(n: u8) -> (r: String)
    ensures
        r@ == seq!['F'] + nat_text(n as nat),
{
    let mut s = String::new();
    push_char(&mut s, 'F');
    let t = u64_text(n as u64);
    push_str(&mut s, t.as_str());
    s
}

/// How the key reads on screen.
pub fn code_display(c: KeyCode) -> (r: String)
    requires
        key_ok(c),
    ensures
        r@ == code_display_spec(c),
{
    match c {
        KeyCode::Letter(i) => {
            let mut s = String::new();
            push_char(&mut s, letter(i));
            s
        },
        KeyCode::Digit(d) => {
            let mut s = String::new();
            push_char(&mut s, digit(d));
            s
        },
        KeyCode::Function(n) => function_text(n),
        KeyCode::Named(k) => owned(named_label(k)),
    }
}

/// The key with a stored name; none for a name no key has.
pub fn code_from_name(name: &str) -> (r: Option<KeyCode>)
    ensures
        r == code_from_name_spec(name@),
{
    let v = str_chars(name);
    let n = v.len();
    if n == 4 && v[0] == 'K' && v[1] == 'e' && v[2] == 'y' && 'A' <= v[3] && v[3] <= 'Z' {
        return Some(KeyCode::Letter(((v[3] as u32) - 65) as u8));
    }
    if n == 6 && v[0] == 'D' && v[1] == 'i' && v[2] == 'g' && v[3] == 'i' && v[4] == 't' && '0' <= v[5] && v[5] <= '9' {
        return Some(KeyCode::Digit(((v[5] as u32) - 48) as u8));
    }
    if n >= 2 && v[0] == 'F' {
        proof {
            assert(name@.drop_first().len() == n - 1);
            assert(name@.drop_first()[0] == v@[1]);
        }
        if n == 2 && '1' <= v[1] && v[1] <= '9' {
            return Some(KeyCode::Function(((v[1] as u32) - 48) as u8));
        }
        if n == 3 && v[1] == '1' && '0' <= v[2] && v[2] <= '2' {
            proof {
                assert(name@.drop_first()[1] == v@[2]);
            }
            return Some(KeyCode::Function((10 + ((v[2] as u32) - 48)) as u8));
        }
    }
    let s = owned(name);
    match named_from(&s) {
        Some(k) => Some(KeyCode::Named(k)),
        None => None,
    }
}

/// Every key's stored name reads back as that key.
pub proof fn lemma_name_roundtrip(c: KeyCode)
    requires
        key_ok(c),
    ensures
        code_from_name_spec(code_name_spec(c)) == Some(c),
{
    match c {
        KeyCode::Letter(i) => {
            let s = code_name_spec(c);
            assert(s[3] == letter_char(i));
        },
        KeyCode::Digit(d) => {
            let s = code_name_spec(c);
            assert(s[5] == digit_char(d as nat));
        },
        KeyCode::Function(n) => {
            let s = code_name_spec(c);
            if n < 10 {
                assert(nat_text(n as nat) == seq![digit_char(n as nat)]);
                assert(s.drop_first() =~= seq![digit_char(n as nat)]);
            } else {
                assert(nat_text(1) == seq![digit_char(1)]);
                assert(nat_text(n as nat) == nat_text(1).push(digit_char((n % 10) as nat)));
                assert(s.drop_first() =~= seq!['1', digit_char((n - 10) as nat)]);
            }
        },
        KeyCode::Named(k) => {
            lemma_named_shapes(k);
            lemma_named_roundtrip(k);
        },
    }
}

/// A global hotkey: modifier flags (bits of `keyboard-types` `Modifiers`) and
/// a key.
#[derive(Clone, Copy, PartialEq, Eq, Structural, Debug)]
pub struct HotkeyPref {
    pub mods: u32,
    pub code: KeyCode,
}

/// `prefix` when the flag `flag` is set in `mods`.
pub open spec fn part(mods: u32, flag: u32, prefix: Seq<char>) -> Seq<char> {
    if mods & flag != 0 { prefix } else { Seq::empty() }
}

/// The hotkey as shown: the set modifiers among Ctrl, Win, Alt and Shift, in
/// that order, then the key, joined by `+`.
pub open spec fn display_spec(mods: u32, code: KeyCode) -> Seq<char> {
    part(mods, MOD_CONTROL, "Ctrl+"@) + part(mods, MOD_SUPER, "Win+"@) + part(mods, MOD_ALT, "Alt+"@)
        + part(mods, MOD_SHIFT, "Shift+"@) + code_display_spec(code)
}

/// Ctrl+Alt+V.
pub open spec fn default_pref() -> HotkeyPref {
    HotkeyPref { mods: MOD_CONTROL | MOD_ALT, code: KeyCode::Letter(21) }
}

impl Default for HotkeyPref {
    /// Ctrl+Alt+V.
    fn default() -> (r: Self)
        ensures
            r == default_pref(),
    {
        HotkeyPref { mods: MOD_CONTROL | MOD_ALT, code: KeyCode::Letter(21) }
    }
}

/// What `HotkeyPref::from_stored` makes of stored bits and a key name: the
/// hotkey, or the default when a bit is no defined flag or no key has the name.
pub open spec fn from_stored_spec(mods: u32, name: Seq<char>) -> HotkeyPref {
    if mods & !MOD_ALL == 0 && code_from_name_spec(name) is Some {
        HotkeyPref { mods, code: code_from_name_spec(name)->0 }
    } else {
        default_pref()
    }
}

impl HotkeyPref {
    /// "Ctrl+Alt+V": readable, for the interface's badge.
    pub fn display(&self) -> (r: String)
        requires
            key_ok(self.code),
        ensures
            r@ == display_spec(self.mods, self.code),
    {
        let mut s = String::new();
        if self.mods & MOD_CONTROL != 0 {
            push_str(&mut s, "Ctrl+");
        }
        let ghost s1 = s@;
        if self.mods & MOD_SUPER != 0 {
            push_str(&mut s, "Win+");
        }
        let ghost s2 = s@;
        if self.mods & MOD_ALT != 0 {
            push_str(&mut s, "Alt+");
        }
        let ghost s3 = s@;
        if self.mods & MOD_SHIFT != 0 {
            push_str(&mut s, "Shift+");
        }
        let ghost s4 = s@;
        let k = code_display(self.code);
        push_str(&mut s, k.as_str());
        proof {
            assert(s1 =~= part(self.mods, MOD_CONTROL, "Ctrl+"@));
            assert(s2 =~= s1 + part(self.mods, MOD_SUPER, "Win+"@));
            assert(s3 =~= s2 + part(self.mods, MOD_ALT, "Alt+"@));
            assert(s4 =~= s3 + part(self.mods, MOD_SHIFT, "Shift+"@));
        }
        s
    }

    /// The stored form: the modifier bits and the key's name.
    pub fn to_stored(&self) -> (r: (u32, String))
        requires
            key_ok(self.code),
        ensures
            r.0 == self.mods,
            r.1@ == code_name_spec(self.code),
    {
        (self.mods, code_name(self.code))
    }

    /// The hotkey read back from its stored form (see `from_stored_spec`).
    pub fn from_stored(mods: u32, name: &str) -> (r: HotkeyPref)
        ensures
            r == from_stored_spec(mods, name@),
    {
        match modifiers_from_bits(mods) {
            Some(m) => match code_from_name(name) {
                Some(code) => HotkeyPref { mods: m, code },
                None => HotkeyPref::default(),
            },
            None => HotkeyPref::default(),
        }
    }
}

/// A hotkey whose modifiers are defined flags reads back as itself from its
/// stored form.
pub proof fn lemma_stored_roundtrip(p: HotkeyPref)
    requires
        p.mods & !MOD_ALL == 0,
        key_ok(p.code),
    ensures
        from_stored_spec(p.mods, code_name_spec(p.code)) == p,
{
    lemma_name_roundtrip(p.code);
}

/// The modifier flags of a key press from the interface's modifier state:
/// Ctrl, Alt, Shift, and the command key (or the Mac command key) as Super.
pub fn mods_from_flags(ctrl: bool, alt: bool, shift: bool, command: bool, mac_cmd: bool) -> (r: u32)
    ensures
        r == (if ctrl { MOD_CONTROL } else { 0 }) | (if alt { MOD_ALT } else { 0 }) | (if shift { MOD_SHIFT } else { 0 })
            | (if command || mac_cmd { MOD_SUPER } else { 0 }),
{
    let c: u32 = if ctrl { MOD_CONTROL } else { 0 };
    let a: u32 = if alt { MOD_ALT } else { 0 };
    let sh: u32 = if shift { MOD_SHIFT } else { 0 };
    let su: u32 = if command || mac_cmd { MOD_SUPER } else { 0 };
    c | a | sh | su
}

/// The command that starts the app hidden with the session:
/// `"<exe>" --hidden`.
pub open spec fn autostart_command_spec(exe: Seq<char>) -> Seq<char> {
    seq!['"'] + exe + "\" --hidden"@
}

/// The command that starts the app hidden with the session.
pub fn autostart_command(exe: &str) -> (r: String)
    ensures
        r@ == autostart_command_spec(exe@),
{
    let mut s = String::new();
    push_char(&mut s, '"');
    push_str(&mut s, exe);
    push_str(&mut s, "\" --hidden");
    s
}

/// The desktop entry (Linux) that starts the app with the session.
pub open spec fn autostart_entry_spec(exe: Seq<char>) -> Seq<char> {
    "[Desktop Entry]\nType=Application\nName=Lab Clip\nExec="@ + autostart_command_spec(exe) + "\nTerminal=false\n"@
}

/// The desktop entry (Linux) that starts the app with the session.
pub fn autostart_entry(exe: &str) -> (r: String)
    ensures
        r@ == autostart_entry_spec(exe@),
{
    let mut s = owned("[Desktop Entry]\nType=Application\nName=Lab Clip\nExec=");
    let c = autostart_command(exe);
    push_str(&mut s, c.as_str());
    push_str(&mut s, "\nTerminal=false\n");
    s
}

} // verus!
