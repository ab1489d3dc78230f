use clipboard_hack::hotkey::{hotkey_display, is_hotkey, on_key_event, update_modifier, Key, KeyEvent, Modifiers};

#[test]
fn hotkey_fires_on_ctrl_shift_h() {
    let mut m = Modifiers::none();
    assert!(!on_key_event(&mut m, KeyEvent::Press(Key::ControlLeft)));
    assert!(!on_key_event(&mut m, KeyEvent::Press(Key::ShiftRight)));
    assert!(on_key_event(&mut m, KeyEvent::Press(Key::KeyH)));
    assert!(!on_key_event(&mut m, KeyEvent::Release(Key::KeyH)));
    assert!(!on_key_event(&mut m, KeyEvent::Release(Key::ShiftRight)));
    assert!(!on_key_event(&mut m, KeyEvent::Press(Key::KeyH)));
}

#[test]
fn hotkey_needs_alt_up() {
    let mut m = Modifiers::none();
    update_modifier(Key::ControlRight, true, &mut m);
    update_modifier(Key::ShiftLeft, true, &mut m);
    update_modifier(Key::AltGr, true, &mut m);
    assert!(!is_hotkey(Key::KeyH, m));
    update_modifier(Key::Alt, false, &mut m);
    assert!(is_hotkey(Key::KeyH, m));
    assert!(!is_hotkey(Key::Other, m));
}

#[test]
fn hotkey_text() {
    assert_eq!(hotkey_display(), "Ctrl+Shift+H");
}
