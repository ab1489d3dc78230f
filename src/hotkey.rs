use vstd::prelude::*;

verus! {

/// The keys that the capture hotkey involves; every other key is `Other`.
#[derive(Clone, Copy, Debug, PartialEq, Eq, Structural)]
pub enum Key {
    ControlLeft,
    ControlRight,
    ShiftLeft,
    ShiftRight,
    Alt,
    AltGr,
    KeyH,
    Other,
}

/// A key going down or coming up.
#[derive(Clone, Copy, Debug, PartialEq, Eq, Structural)]
pub enum KeyEvent {
    Press(Key),
    Release(Key),
}

/// Which modifier keys are held.
#[derive(Clone, Copy, Debug, PartialEq, Eq, Structural)]
pub struct Modifiers {
    pub ctrl: bool,
    pub shift: bool,
    pub alt: bool,
}

/// The hotkey is Ctrl + Shift + H, with Alt up.
pub const HOTKEY_CTRL: bool = true;

pub const HOTKEY_SHIFT: bool = true;

pub const HOTKEY_ALT: bool = false;

/// The held modifiers after `key` goes down (`pressed`) or comes up.
pub open spec fn modifiers_after(m: Modifiers, key: Key, pressed: bool) -> Modifiers {
    match key {
        Key::ControlLeft | Key::ControlRight => Modifiers { ctrl: pressed, ..m },
        Key::ShiftLeft | Key::ShiftRight => Modifiers { shift: pressed, ..m },
        Key::Alt | Key::AltGr => Modifiers { alt: pressed, ..m },
        _ => m,
    }
}

pub open spec fn hotkey_spec(key: Key, m: Modifiers) -> bool {
    key == Key::KeyH && m.ctrl == HOTKEY_CTRL && m.shift == HOTKEY_SHIFT && m.alt == HOTKEY_ALT
}

impl Modifiers {
    pub fn none() -> (r: Self)
        ensures
            r == (Modifiers { ctrl: false, shift: false, alt: false }),
    {
        Modifiers { ctrl: false, shift: false, alt: false }
    }
}

/// Records a modifier key going down or coming up.
pub fn update_modifier(key: Key, pressed: bool, m: &mut Modifiers)
    ensures
        *final(m) == modifiers_after(*old(m), key, pressed),
{
    match key {
        Key::ControlLeft | Key::ControlRight => m.ctrl = pressed,
        Key::ShiftLeft | Key::ShiftRight => m.shift = pressed,
        Key::Alt | Key::AltGr => m.alt = pressed,
        _ => {},
    }
}

/// Whether `key` with the held modifiers `m` is the hotkey.
pub fn is_hotkey(key: Key, m: Modifiers) -> (r: bool)
    ensures
        r == hotkey_spec(key, m),
{
    matches!(key, Key::KeyH) && m.ctrl == HOTKEY_CTRL && m.shift == HOTKEY_SHIFT && m.alt
        == HOTKEY_ALT
}

/// Takes one key event: updates the held modifiers and says whether a
/// capture is due (the hotkey went down).
pub fn on_key_event(m: &mut Modifiers, event: KeyEvent) -> (capture: bool)
    ensures
        match event {
            KeyEvent::Press(k) => *final(m) == modifiers_after(*old(m), k, true) && capture
                == hotkey_spec(k, *final(m)),
            KeyEvent::Release(k) => *final(m) == modifiers_after(*old(m), k, false) && !capture,
        },
{
    match event {
        KeyEvent::Press(k) => {
            update_modifier(k, true, m);
            is_hotkey(k, *m)
        },
        KeyEvent::Release(k) => {
            update_modifier(k, false, m);
            false
        },
    }
}

/// The hotkey, for display.
pub fn hotkey_display() -> (r: &'static str)
    ensures
        r@ == "Ctrl+Shift+H"@,
{
    "Ctrl+Shift+H"
}

} // verus!
