use murmure::binding::{keys_to_string, normalize_binding, parse_binding_keys};
use murmure::registry::ActivationMode;
use murmure::hotkey::{binding_to_hotkey, vk_to_hotkey_key};

#[test]
fn parse_default_bindings() {
    assert_eq!(parse_binding_keys("ctrl+space"), vec![0x11, 0x20]);
    assert_eq!(parse_binding_keys("ctrl+shift+space"), vec![0x11, 0x10, 0x20]);
    assert_eq!(parse_binding_keys("ctrl+alt+space"), vec![0x11, 0x12, 0x20]);
}

#[test]
fn parse_normalizes_case_blanks_aliases_and_order() {
    assert_eq!(parse_binding_keys(" Shift + CTRL + r "), vec![0x11, 0x10, 0x52]);
    assert_eq!(parse_binding_keys("control+a"), vec![0x11, 0x41]);
    assert_eq!(parse_binding_keys("cmd+1"), vec![0x5B, 0x31]);
    assert_eq!(parse_binding_keys("meta+f5"), vec![0x5B, 0x74]);
    assert_eq!(parse_binding_keys("ctrl+ctrl+a"), vec![0x11, 0x41]);
    assert_eq!(parse_binding_keys("ctrl++a"), vec![0x11, 0x41]);
}

#[test]
fn parse_rejects_unknown_tokens_and_empty_strings() {
    assert_eq!(parse_binding_keys(""), Vec::<i32>::new());
    assert_eq!(parse_binding_keys("++"), Vec::<i32>::new());
    assert_eq!(parse_binding_keys("ctrl+banana"), Vec::<i32>::new());
    assert_eq!(parse_binding_keys("f13"), Vec::<i32>::new());
}

#[test]
fn format_joins_canonical_tokens() {
    assert_eq!(keys_to_string(&vec![0x11, 0x20]), "ctrl+space");
    assert_eq!(keys_to_string(&vec![0x11, 0x10, 0x52]), "ctrl+shift+r");
    assert_eq!(keys_to_string(&vec![0x5B, 0x79]), "super+f10");
    assert_eq!(keys_to_string(&Vec::new()), "");
}

#[test]
fn parse_then_format_is_a_fixed_point() {
    for s in ["ctrl+space", " Shift + CTRL + r ", "cmd+f11", "alt + Delete", "a+b+c"] {
        let once = keys_to_string(&parse_binding_keys(s));
        let twice = keys_to_string(&parse_binding_keys(&once));
        assert_eq!(twice, once);
    }
}

#[test]
fn hotkey_names_main_keys() {
    assert_eq!(vk_to_hotkey_key(0x52).unwrap(), "KeyR");
    assert_eq!(vk_to_hotkey_key(0x31).unwrap(), "Digit1");
    assert_eq!(vk_to_hotkey_key(0x74).unwrap(), "F5");
    assert_eq!(vk_to_hotkey_key(0x7B).unwrap(), "F12");
    assert_eq!(vk_to_hotkey_key(0x20).unwrap(), "Space");
    assert!(vk_to_hotkey_key(0x11).is_none());
}

#[test]
fn hotkey_describes_modifier_combos() {
    assert_eq!(
        binding_to_hotkey(&vec![0x11, 0x10, 0x52]).unwrap(),
        "Control+Shift+KeyR"
    );
    assert_eq!(binding_to_hotkey(&vec![0x20]).unwrap(), "Space");
    assert!(binding_to_hotkey(&Vec::new()).is_none());
    assert!(binding_to_hotkey(&vec![0x11, 0x10]).is_none());
    assert!(binding_to_hotkey(&vec![0x11, 0x41, 0x42]).is_none());
}

#[test]
fn normalize_binding_rejects_or_canonicalizes() {
    assert_eq!(normalize_binding(" Shift + CTRL + r ").unwrap(), "ctrl+shift+r");
    assert_eq!(normalize_binding("ctrl+space").unwrap(), "ctrl+space");
    assert!(normalize_binding("").is_none());
    assert!(normalize_binding("ctrl+banana").is_none());
}

#[test]
fn activation_mode_follows_the_record_mode_setting() {
    assert_eq!(ActivationMode::from_setting("toggle_to_talk"), ActivationMode::ToggleToTalk);
    assert_eq!(ActivationMode::from_setting("push_to_talk"), ActivationMode::PushToTalk);
    assert_eq!(ActivationMode::from_setting(""), ActivationMode::PushToTalk);
}
