//! Key input: the key, its modifiers, and what handling it asks of the caller.
use vstd::prelude::*;
use crate::chars::str_chars;

verus! {

/// What handling an input asks of the caller.
#[derive(Debug, Clone, Copy, PartialEq, Eq, Structural)]
pub enum EventOutcome {
    Render,
    Ignore,
    Exit,
}

/// A key.
#[derive(Debug, Clone, Copy, PartialEq, Eq, Structural, Hash)]
pub enum Event {
    Char(char),
    Esc,
    Enter,
    Backspace,
    Tab,
    Left,
    Right,
    Up,
    Down,
    PageUp,
    PageDown,
}

/// The modifier keys held with a key.
#[derive(Debug, Clone, Copy, PartialEq, Eq, Structural, Hash)]
pub struct Modifiers {
    pub ctr: bool,
    pub alt: bool,
    pub shift: bool,
}

/// A key with its modifiers.
#[derive(Debug, Clone, Copy, PartialEq, Eq, Structural, Hash)]
pub struct Input {
    pub event: Event,
    pub modifiers: Modifiers,
}

impl Default for Modifiers {
    /// No modifier held.
    fn default() -> (m: Self)
        ensures
            !m.ctr && !m.alt && !m.shift,
    {
        Modifiers { ctr: false, alt: false, shift: false }
    }
}

/// Code of a key: the scalar value of a char, or a value past all of them.
pub open spec fn event_code(e: Event) -> u64 {
    match e {
        Event::Char(c) => c as u64,
        Event::Esc => 0x110000,
        Event::Enter => 0x110001,
        Event::Backspace => 0x110002,
        Event::Tab => 0x110003,
        Event::Left => 0x110004,
        Event::Right => 0x110005,
        Event::Up => 0x110006,
        Event::Down => 0x110007,
        Event::PageUp => 0x110008,
        Event::PageDown => 0x110009,
    }
}

/// Code of the modifiers: one bit each.
pub open spec fn mods_code(m: Modifiers) -> nat {
    (if m.ctr { 1nat } else { 0nat }) + (if m.alt { 2nat } else { 0nat }) + (if m.shift { 4nat } else { 0nat })
}

/// The number that orders and finds an input in key bindings.
pub open spec fn input_key(i: Input) -> u64 {
    (event_code(i.event) + mods_code(i.modifiers) * 0x200000) as u64
}

/// Keying bindings by number loses nothing: distinct inputs have distinct numbers.
pub proof fn law_input_key_injective(a: Input, b: Input)
    ensures
        input_key(a) == input_key(b) ==> a == b,
{
    assert(event_code(a.event) < 0x200000);
    assert(event_code(b.event) < 0x200000);
    if input_key(a) == input_key(b) {
        assert(mods_code(a.modifiers) == mods_code(b.modifiers));
        assert(event_code(a.event) == event_code(b.event));
        match a.event {
            Event::Char(c) => {
                assert(b.event is Char);
            },
            _ => {},
        }
    }
}

impl Input {
    /// The number that orders and finds this input in key bindings.
    pub fn key(&self) -> (k: u64)
        ensures
            k == input_key(*self),
    {
        let code: u64 = match self.event {
            Event::Char(c) => (c as u32) as u64,
            Event::Esc => 0x110000,
            Event::Enter => 0x110001,
            Event::Backspace => 0x110002,
            Event::Tab => 0x110003,
            Event::Left => 0x110004,
            Event::Right => 0x110005,
            Event::Up => 0x110006,
            Event::Down => 0x110007,
            Event::PageUp => 0x110008,
            Event::PageDown => 0x110009,
        };
        let m = &self.modifiers;
        let mods: u64 = (if m.ctr { 1u64 } else { 0u64 }) + (if m.alt { 2u64 } else { 0u64 }) + (if m.shift { 4u64 } else { 0u64 });
        code + mods * 0x200000
    }
}

/// Whether the chars of `v` are those of `lit`.
pub fn chars_are(v: &[char], lit: &str) -> (b: bool)
    ensures
        b == (v@ == lit@),
{
    let l = str_chars(lit);
    if v.len() != l.len() {
        return false;
    }
    let mut i: usize = 0;
    while i < v.len()
        invariant
            v@.len() == l@.len(),
            l@ == lit@,
            i <= v@.len(),
            forall|j: int| 0 <= j < i ==> v@[j] == l@[j],
        decreases v@.len() - i,
    {
        if v[i] != l[i] {
            return false;
        }
        i = i + 1;
    }
    assert(v@ =~= l@);
    true
}

/// The key that a name stands for in a key binding: a single char, or one of the names
/// `Space`, `Esc`, `Enter`, `Backspace`, `Tab`, `Left`, `Right`, `Up`, `Down`, `PageUp`,
/// `PageDown`.
pub open spec fn event_of(s: Seq<char>) -> Option<Event> {
    if s.len() == 1 {
        Some(Event::Char(s[0]))
    } else if s == "Space"@ {
        Some(Event::Char(' '))
    } else if s == "Esc"@ {
        Some(Event::Esc)
    } else if s == "Enter"@ {
        Some(Event::Enter)
    } else if s == "Backspace"@ {
        Some(Event::Backspace)
    } else if s == "Tab"@ {
        Some(Event::Tab)
    } else if s == "Left"@ {
        Some(Event::Left)
    } else if s == "Right"@ {
        Some(Event::Right)
    } else if s == "Up"@ {
        Some(Event::Up)
    } else if s == "Down"@ {
        Some(Event::Down)
    } else if s == "PageUp"@ {
        Some(Event::PageUp)
    } else if s == "PageDown"@ {
        Some(Event::PageDown)
    } else {
        None
    }
}

impl Event {
    /// The key that `s` names in a key binding, if any.
    pub fn from_name(s: &str) -> (e: Option<Event>)
        ensures
            e == event_of(s@),
    {
        let v = str_chars(s);
        if v.len() == 1 {
            return Some(Event::Char(v[0]));
        }
        let v = v.as_slice();
        if chars_are(v, "Space") {
            Some(Event::Char(' '))
        } else if chars_are(v, "Esc") {
            Some(Event::Esc)
        } else if chars_are(v, "Enter") {
            Some(Event::Enter)
        } else if chars_are(v, "Backspace") {
            Some(Event::Backspace)
        } else if chars_are(v, "Tab") {
            Some(Event::Tab)
        } else if chars_are(v, "Left") {
            Some(Event::Left)
        } else if chars_are(v, "Right") {
            Some(Event::Right)
        } else if chars_are(v, "Up") {
            Some(Event::Up)
        } else if chars_are(v, "Down") {
            Some(Event::Down)
        } else if chars_are(v, "PageUp") {
            Some(Event::PageUp)
        } else if chars_are(v, "PageDown") {
            Some(Event::PageDown)
        } else {
            None
        }
    }
}

/// Whether `s`, in lower case, names a modifier key.
pub open spec fn is_modifier_name(s: Seq<char>) -> bool {
    s == "ctrl"@ || s == "alt"@ || s == "shift"@
}

impl Modifiers {
    /// Whether `s`, already in lower case, names a modifier key.
    pub fn contain(s: &str) -> (b: bool)
        ensures
            b == is_modifier_name(s@),
    {
        let v = str_chars(s);
        chars_are(v.as_slice(), "ctrl") || chars_are(v.as_slice(), "alt") || chars_are(v.as_slice(), "shift")
    }
}

} // verus!
