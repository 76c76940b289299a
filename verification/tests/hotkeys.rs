use blipply_assistant::hotkeys::hotkey_from_parts;
use blipply_assistant::hotkeys::key_from_lowercase;
use blipply_assistant::hotkeys::modifier_from_lowercase;
use blipply_assistant::hotkeys::parse_hotkey;
use blipply_assistant::hotkeys::parse_key_name;
use blipply_assistant::hotkeys::Hotkey;
use blipply_assistant::hotkeys::HotkeyError;
use blipply_assistant::hotkeys::HotkeyTracker;
use blipply_assistant::hotkeys::Key;
use blipply_assistant::hotkeys::Modifier;

#[test]
fn test_parse_hotkey() {
    let hotkey = parse_hotkey("Super+Shift+A").unwrap();
    assert!(hotkey.super_mod);
    assert!(hotkey.shift_mod);
    assert!(!hotkey.ctrl_mod);
}

#[test]
fn test_parse_key_name() {
    assert!(matches!(parse_key_name("A").unwrap(), Key::KEY_A));
    assert!(matches!(parse_key_name("space").unwrap(), Key::KEY_SPACE));
}

#[test]
fn default_hotkey_in_full() {
    assert_eq!(
        parse_hotkey("Super+Shift+A"),
        Ok(Hotkey {
            super_mod: true,
            shift_mod: true,
            ctrl_mod: false,
            alt_mod: false,
            key: Key::KEY_A
        })
    );
}

#[test]
fn hotkey_parts_are_trimmed_and_case_is_ignored() {
    let expected = Hotkey {
        super_mod: false,
        shift_mod: false,
        ctrl_mod: true,
        alt_mod: true,
        key: Key::KEY_ESC,
    };
    assert_eq!(parse_hotkey(" CTRL + Alt +  Escape "), Ok(expected));
    assert_eq!(parse_hotkey("control+ALT+esc"), Ok(expected));
    assert_eq!(parse_hotkey("alt+ctrl+ESC"), Ok(expected));
    assert_eq!(parse_hotkey("alt+alt+ctrl+ESC"), Ok(expected));
}

#[test]
fn every_modifier_name() {
    let key = |text: &str| parse_hotkey(text).unwrap();
    assert!(key("meta+x").super_mod);
    assert!(key("Win+x").super_mod);
    assert!(key("SUPER+x").super_mod);
    assert!(key("shift+x").shift_mod);
    assert!(key("ctrl+x").ctrl_mod);
    assert!(key("Control+x").ctrl_mod);
    assert!(key("alt+x").alt_mod);
    let plain = key("x");
    assert_eq!(
        plain,
        Hotkey { super_mod: false, shift_mod: false, ctrl_mod: false, alt_mod: false, key: Key::KEY_X }
    );
    assert_eq!(modifier_from_lowercase("super"), Some(Modifier::Super));
    assert_eq!(modifier_from_lowercase("shift"), Some(Modifier::Shift));
    assert_eq!(modifier_from_lowercase("control"), Some(Modifier::Ctrl));
    assert_eq!(modifier_from_lowercase("alt"), Some(Modifier::Alt));
    assert_eq!(modifier_from_lowercase("Super"), None);
    assert_eq!(modifier_from_lowercase(""), None);
}

#[test]
fn hotkey_errors() {
    assert_eq!(parse_hotkey("Super+Shift"), Err(HotkeyError::NoKeySpecified));
    assert_eq!(parse_hotkey("alt"), Err(HotkeyError::NoKeySpecified));
    assert_eq!(parse_hotkey("Super+F13"), Err(HotkeyError::UnknownKey));
    assert_eq!(parse_hotkey(""), Err(HotkeyError::UnknownKey));
    assert_eq!(parse_hotkey("Super+"), Err(HotkeyError::UnknownKey));
    assert_eq!(parse_hotkey("Hyper+A"), Err(HotkeyError::UnknownModifier { index: 0 }));
    assert_eq!(parse_hotkey("Super+A+B"), Err(HotkeyError::UnknownModifier { index: 1 }));
    assert_eq!(parse_hotkey("Super++A"), Err(HotkeyError::UnknownModifier { index: 1 }));
    // The first part that cannot be read decides.
    assert_eq!(parse_hotkey("Super+Foo+Bar+?"), Err(HotkeyError::UnknownModifier { index: 1 }));
    assert_eq!(parse_key_name("F13"), Err(HotkeyError::UnknownKey));
    assert_eq!(parse_key_name(""), Err(HotkeyError::UnknownKey));
    assert_eq!(parse_key_name(" a"), Err(HotkeyError::UnknownKey));
}

#[test]
fn every_key_name() {
    let letters = [
        Key::KEY_A, Key::KEY_B, Key::KEY_C, Key::KEY_D, Key::KEY_E, Key::KEY_F, Key::KEY_G,
        Key::KEY_H, Key::KEY_I, Key::KEY_J, Key::KEY_K, Key::KEY_L, Key::KEY_M, Key::KEY_N,
        Key::KEY_O, Key::KEY_P, Key::KEY_Q, Key::KEY_R, Key::KEY_S, Key::KEY_T, Key::KEY_U,
        Key::KEY_V, Key::KEY_W, Key::KEY_X, Key::KEY_Y, Key::KEY_Z,
    ];
    for (i, key) in letters.iter().enumerate() {
        let lower = ((b'a' + i as u8) as char).to_string();
        let upper = ((b'A' + i as u8) as char).to_string();
        assert_eq!(parse_key_name(&lower), Ok(*key));
        assert_eq!(parse_key_name(&upper), Ok(*key));
        assert_eq!(key_from_lowercase(&lower), Some(*key));
        assert_eq!(key_from_lowercase(&upper), None);
    }
    assert_eq!(parse_key_name("Space"), Ok(Key::KEY_SPACE));
    assert_eq!(parse_key_name("enter"), Ok(Key::KEY_ENTER));
    assert_eq!(parse_key_name("RETURN"), Ok(Key::KEY_ENTER));
    assert_eq!(parse_key_name("Esc"), Ok(Key::KEY_ESC));
    assert_eq!(parse_key_name("escape"), Ok(Key::KEY_ESC));
    // The Kelvin sign becomes `k` in lowercase.
    assert_eq!(parse_key_name("\u{212a}"), Ok(Key::KEY_K));
    assert_eq!(key_from_lowercase("\u{212a}"), None);
    assert_eq!(key_from_lowercase("`"), None);
    assert_eq!(key_from_lowercase("{"), None);
    assert_eq!(key_from_lowercase("ab"), None);
}

#[test]
fn hotkey_from_prepared_parts() {
    let parts = |p: &[&str]| -> Vec<String> { p.iter().map(|s| s.to_string()).collect() };
    assert_eq!(
        hotkey_from_parts(&parts(&["shift", "space"])),
        Ok(Hotkey {
            super_mod: false,
            shift_mod: true,
            ctrl_mod: false,
            alt_mod: false,
            key: Key::KEY_SPACE
        })
    );
    assert_eq!(hotkey_from_parts(&parts(&[])), Err(HotkeyError::NoKeySpecified));
    assert_eq!(hotkey_from_parts(&parts(&["Shift", "a"])), Err(HotkeyError::UnknownModifier { index: 0 }));
    assert_eq!(hotkey_from_parts(&parts(&["shift", "A"])), Err(HotkeyError::UnknownKey));
}

#[test]
fn hotkey_fires_with_the_right_modifiers_only() {
    let hotkey = parse_hotkey("Super+Shift+A").unwrap();
    let mut tracker = HotkeyTracker::new();
    assert!(!tracker.on_key(&hotkey, Key::KEY_A, 1));
    assert!(!tracker.on_key(&hotkey, Key::KEY_LEFTMETA, 1));
    assert!(tracker.super_pressed);
    assert!(!tracker.on_key(&hotkey, Key::KEY_A, 1));
    assert!(!tracker.on_key(&hotkey, Key::KEY_RIGHTSHIFT, 1));
    assert!(tracker.shift_pressed);
    assert!(!tracker.on_key(&hotkey, Key::KEY_B, 1));
    assert!(!tracker.on_key(&hotkey, Key::KEY_A, 0));
    assert!(!tracker.on_key(&hotkey, Key::KEY_A, 2));
    assert!(tracker.on_key(&hotkey, Key::KEY_A, 1));
    assert!(tracker.on_key(&hotkey, Key::KEY_A, 1));
    // Auto-repeat of a modifier counts as a release.
    assert!(!tracker.on_key(&hotkey, Key::KEY_LEFTSHIFT, 2));
    assert!(!tracker.shift_pressed);
    assert!(!tracker.on_key(&hotkey, Key::KEY_A, 1));
    assert!(!tracker.on_key(&hotkey, Key::KEY_OTHER, 1));
    let plain = parse_hotkey("x").unwrap();
    assert!(!tracker.on_key(&plain, Key::KEY_X, 1));
    assert!(!tracker.on_key(&plain, Key::KEY_RIGHTMETA, 0));
    assert!(tracker.on_key(&plain, Key::KEY_X, 1));
}
